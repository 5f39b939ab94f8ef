//! The top-level state machine: the current screen, the configuration list,
//! the instance registry and the editing scratch state, stepped by one key
//! event at a time. Everything the host or the operating system must do for
//! a step comes back as effects; nothing here touches the outside world.

use vstd::prelude::*;
use vstd::string::StringExecFns;
use crate::config::{McpConfig, McpConfigView, McpTemplate, config_wf, spec_default_config};
use crate::launcher::{LaunchPlan, LaunchPlanView, spec_join};
use crate::registry::{InstanceRegistry, reg_sorted};
use crate::strmap::{StrMap, assoc_get, assoc_insert, assoc_sorted, lemma_assoc_insert_sorted};
use crate::template::{apply_template_defaults, spec_apply_template, spec_template_from,
    spec_template_label, spec_type_from, spec_type_label, template_from_input, template_label,
    type_from_input, type_label};
use crate::text::{find_char, lower_of, spec_find, spec_lines, spec_split_ws, spec_trim,
    split_lines, split_ws, trim, strip_prefix_chars, starts_with};

verus! {

/// A key, without its modifiers.
#[derive(Clone, Copy, Debug, PartialEq, Eq, Structural)]
pub enum Key {
    Char(char),
    Up,
    Down,
    Enter,
    Esc,
    Tab,
    Backspace,
}

/// One key event from the host.
#[derive(Clone, Copy, Debug, PartialEq, Eq, Structural)]
pub struct KeyEvent {
    pub key: Key,
    pub ctrl: bool,
    pub shift: bool,
    pub alt: bool,
}

impl KeyEvent {
    /// No modifier is held.
    pub open spec fn plain(&self) -> bool {
        !self.ctrl && !self.shift && !self.alt
    }

    /// Exactly the control modifier is held.
    pub open spec fn ctrl_only(&self) -> bool {
        self.ctrl && !self.shift && !self.alt
    }

    /// Exactly the shift modifier is held.
    pub open spec fn shift_only(&self) -> bool {
        !self.ctrl && self.shift && !self.alt
    }

    /// No modifier is held.
    pub fn is_plain(&self) -> (r: bool)
        ensures
            r == self.plain(),
    {
        !self.ctrl && !self.shift && !self.alt
    }

    /// Exactly the control modifier is held.
    pub fn is_ctrl_only(&self) -> (r: bool)
        ensures
            r == self.ctrl_only(),
    {
        self.ctrl && !self.shift && !self.alt
    }

    /// Exactly the shift modifier is held.
    pub fn is_shift_only(&self) -> (r: bool)
        ensures
            r == self.shift_only(),
    {
        !self.ctrl && self.shift && !self.alt
    }
}

/// The form fields of the add/edit screen, in their tab order.
#[derive(Clone, Copy, Debug, PartialEq, Eq, Structural)]
pub enum InputField {
    Name,
    Template,
    Type,
    Command,
    Args,
    /// Retired: the port became a dynamic argument; the field is kept so
    /// saved cursor positions remain meaningful, but the cycle skips it.
    Port,
    WorkingDir,
    ActivationScript,
    EnvVars,
}

/// The field after `f` in the tab order; the activation-script field exists
/// only for the Python-project template.
pub open spec fn spec_next_field(f: InputField, t: McpTemplate) -> InputField {
    match f {
        InputField::Name => InputField::Template,
        InputField::Template => InputField::Type,
        InputField::Type => InputField::Command,
        InputField::Command => InputField::Args,
        InputField::Args => InputField::WorkingDir,
        InputField::WorkingDir => match t {
            McpTemplate::PythonProject => InputField::ActivationScript,
            _ => InputField::EnvVars,
        },
        InputField::ActivationScript => InputField::EnvVars,
        InputField::EnvVars => InputField::Name,
        InputField::Port => InputField::WorkingDir,
    }
}

/// The field before `f` in the tab order.
pub open spec fn spec_prev_field(f: InputField, t: McpTemplate) -> InputField {
    match f {
        InputField::Name => InputField::EnvVars,
        InputField::Template => InputField::Name,
        InputField::Type => InputField::Template,
        InputField::Command => InputField::Type,
        InputField::Args => InputField::Command,
        InputField::Port => InputField::Args,
        InputField::WorkingDir => InputField::Args,
        InputField::ActivationScript => InputField::WorkingDir,
        InputField::EnvVars => match t {
            McpTemplate::PythonProject => InputField::ActivationScript,
            _ => InputField::WorkingDir,
        },
    }
}

/// Whether a field belongs to the tab cycle of a template: the retired port
/// field never does, and the activation-script field only under the
/// Python-project template.
pub open spec fn field_in_cycle(f: InputField, t: McpTemplate) -> bool {
    &&& !(f is Port)
    &&& (f is ActivationScript ==> t is PythonProject)
}

/// Stepping forward then backward — or backward then forward — through the
/// fields returns to the starting field, for every template and every field
/// of its cycle.
pub proof fn lemma_field_cycle(f: InputField, t: McpTemplate)
    requires
        field_in_cycle(f, t),
    ensures
        spec_prev_field(spec_next_field(f, t), t) == f,
        spec_next_field(spec_prev_field(f, t), t) == f,
{
}

/// The field after `f` in the tab order.
pub fn next_field(f: InputField, t: McpTemplate) -> (r: InputField)
    ensures
        r == spec_next_field(f, t),
{
    match f {
        InputField::Name => InputField::Template,
        InputField::Template => InputField::Type,
        InputField::Type => InputField::Command,
        InputField::Command => InputField::Args,
        InputField::Args => InputField::WorkingDir,
        InputField::WorkingDir => match t {
            McpTemplate::PythonProject => InputField::ActivationScript,
            _ => InputField::EnvVars,
        },
        InputField::ActivationScript => InputField::EnvVars,
        InputField::EnvVars => InputField::Name,
        InputField::Port => InputField::WorkingDir,
    }
}

/// The field before `f` in the tab order.
pub fn prev_field(f: InputField, t: McpTemplate) -> (r: InputField)
    ensures
        r == spec_prev_field(f, t),
{
    match f {
        InputField::Name => InputField::EnvVars,
        InputField::Template => InputField::Name,
        InputField::Type => InputField::Template,
        InputField::Command => InputField::Type,
        InputField::Args => InputField::Command,
        InputField::Port => InputField::Args,
        InputField::WorkingDir => InputField::Args,
        InputField::ActivationScript => InputField::WorkingDir,
        InputField::EnvVars => match t {
            McpTemplate::PythonProject => InputField::ActivationScript,
            _ => InputField::WorkingDir,
        },
    }
}

/// The navigation state: exactly one screen is live at a time.
pub enum Screen {
    MainMenu,
    CurrentMcps,
    LaunchMcp,
    AddMcp,
    /// Editing the configuration that had this name when editing began.
    EditMcp(String),
    /// Supplying dynamic-argument values on a scratch copy before a launch.
    ConfigureArgs(McpConfig),
    /// Walking the filesystem to pick a directory for a field or argument.
    BrowseDirectory {
        return_field: InputField,
        return_arg: Option<String>,
        current_path: String,
        entries: Vec<String>,
        selected_index: usize,
    },
}

/// Mathematical image of a [`Screen`].
#[verifier::ext_equal]
pub ghost enum ScreenView {
    MainMenu,
    CurrentMcps,
    LaunchMcp,
    AddMcp,
    EditMcp(Seq<char>),
    ConfigureArgs(McpConfigView),
    BrowseDirectory {
        return_field: InputField,
        return_arg: Option<Seq<char>>,
        current_path: Seq<char>,
        entries: Seq<Seq<char>>,
        selected_index: int,
    },
}

impl View for Screen {
    type V = ScreenView;

    open spec fn view(&self) -> ScreenView {
        match self {
            Screen::MainMenu => ScreenView::MainMenu,
            Screen::CurrentMcps => ScreenView::CurrentMcps,
            Screen::LaunchMcp => ScreenView::LaunchMcp,
            Screen::AddMcp => ScreenView::AddMcp,
            Screen::EditMcp(name) => ScreenView::EditMcp(name@),
            Screen::ConfigureArgs(config) => ScreenView::ConfigureArgs(config@),
            Screen::BrowseDirectory {
                return_field,
                return_arg,
                current_path,
                entries,
                selected_index,
            } => ScreenView::BrowseDirectory {
                return_field: *return_field,
                return_arg: match return_arg {
                    Some(a) => Some(a@),
                    None => None,
                },
                current_path: current_path@,
                entries: Seq::new(entries@.len(), |i: int| entries@[i]@),
                selected_index: *selected_index as int,
            },
        }
    }
}

/// One outward step the host or the operating system must take for the
/// machine: the machine itself only decides.
pub enum Effect {
    /// Ask the host to hide this surface.
    Hide,
    /// Open a terminal running a program.
    OpenTerminal(String),
    /// Open a command pane running a program with arguments.
    OpenCommandPane { path: String, args: Vec<String> },
    /// Run a detached session-creation command under a shell and report the
    /// outcome back through [`State::handle_spawn_result`].
    SpawnSession(String),
    /// Kill the named session, best effort: the outcome is ignored.
    KillSession(String),
    /// List the subdirectories of a path and report them back through
    /// [`State::provide_dir_listing`].
    ReadDir(String),
    /// Persist the configuration list; a stand-in that only logs today.
    SaveConfigs,
}

/// Mathematical image of an [`Effect`].
#[verifier::ext_equal]
pub ghost enum EffectView {
    Hide,
    OpenTerminal(Seq<char>),
    OpenCommandPane { path: Seq<char>, args: Seq<Seq<char>> },
    SpawnSession(Seq<char>),
    KillSession(Seq<char>),
    ReadDir(Seq<char>),
    SaveConfigs,
}

impl View for Effect {
    type V = EffectView;

    open spec fn view(&self) -> EffectView {
        match self {
            Effect::Hide => EffectView::Hide,
            Effect::OpenTerminal(p) => EffectView::OpenTerminal(p@),
            Effect::OpenCommandPane { path, args } => EffectView::OpenCommandPane {
                path: path@,
                args: Seq::new(args@.len(), |i: int| args@[i]@),
            },
            Effect::SpawnSession(c) => EffectView::SpawnSession(c@),
            Effect::KillSession(s) => EffectView::KillSession(s@),
            Effect::ReadDir(p) => EffectView::ReadDir(p@),
            Effect::SaveConfigs => EffectView::SaveConfigs,
        }
    }
}

/// A launch whose spawn outcome has not come back yet: the configuration
/// snapshot and the plan built from it.
pub struct PendingLaunch {
    pub config: McpConfig,
    pub plan: LaunchPlan,
}

/// Mathematical image of a [`PendingLaunch`].
#[verifier::ext_equal]
pub ghost struct PendingLaunchView {
    pub config: McpConfigView,
    pub plan: LaunchPlanView,
}

impl View for PendingLaunch {
    type V = PendingLaunchView;

    open spec fn view(&self) -> PendingLaunchView {
        PendingLaunchView { config: self.config@, plan: self.plan@ }
    }
}

/// The whole mutable state of the manager.
pub struct State {
    pub screen: Screen,
    pub configs: Vec<McpConfig>,
    pub instances: InstanceRegistry,
    /// Selection cursor of whichever list screen is live.
    pub selected_index: usize,
    /// The text being typed into the current field or argument.
    pub input_buffer: String,
    pub input_field: InputField,
    /// Scratch copy edited on the add/edit screen, committed on save.
    pub editing_config: McpConfig,
    /// Which dynamic argument the configure screen is editing.
    pub editing_arg_index: usize,
    pub rows: usize,
    pub cols: usize,
    /// One-shot message shown for exactly one render after a failure.
    pub error_message: Option<String>,
    /// One-shot message shown for exactly one render after a success.
    pub success_message: Option<String>,
    /// The directory browsing starts from when no better one is known.
    pub home_dir: String,
    /// The launch whose spawn outcome is awaited, if any.
    pub pending_launch: Option<PendingLaunch>,
}

/// Mathematical image of a [`State`].
#[verifier::ext_equal]
pub ghost struct StateView {
    pub screen: ScreenView,
    pub configs: Seq<McpConfigView>,
    pub instances: Seq<crate::config::InstanceView>,
    pub selected_index: int,
    pub input_buffer: Seq<char>,
    pub input_field: InputField,
    pub editing_config: McpConfigView,
    pub editing_arg_index: int,
    pub rows: int,
    pub cols: int,
    pub error_message: Option<Seq<char>>,
    pub success_message: Option<Seq<char>>,
    pub home_dir: Seq<char>,
    pub pending_launch: Option<PendingLaunchView>,
}

impl View for State {
    type V = StateView;

    open spec fn view(&self) -> StateView {
        StateView {
            screen: self.screen@,
            configs: Seq::new(self.configs@.len(), |i: int| self.configs@[i]@),
            instances: self.instances@,
            selected_index: self.selected_index as int,
            input_buffer: self.input_buffer@,
            input_field: self.input_field,
            editing_config: self.editing_config@,
            editing_arg_index: self.editing_arg_index as int,
            rows: self.rows as int,
            cols: self.cols as int,
            error_message: match self.error_message {
                Some(m) => Some(m@),
                None => None,
            },
            success_message: match self.success_message {
                Some(m) => Some(m@),
                None => None,
            },
            home_dir: self.home_dir@,
            pending_launch: match self.pending_launch {
                Some(p) => Some(p@),
                None => None,
            },
        }
    }
}

/// Every configuration anywhere in the state is well formed and the
/// registry keeps its order.
pub open spec fn state_wf(s: StateView) -> bool {
    &&& forall|i: int| 0 <= i < s.configs.len() ==> config_wf(#[trigger] s.configs[i])
    &&& reg_sorted(s.instances)
    &&& forall|i: int|
        0 <= i < s.instances.len() ==> config_wf((#[trigger] s.instances[i]).config)
    &&& config_wf(s.editing_config)
    &&& (s.screen matches ScreenView::ConfigureArgs(c) ==> config_wf(c))
    &&& (s.pending_launch matches Some(p) ==> config_wf(p.config))
}

/// The state with its one-shot messages dropped, as every key event begins.
pub open spec fn spec_clear_messages(s: StateView) -> StateView {
    StateView { error_message: None, success_message: None, ..s }
}

// ---------- committing the current field ----------

/// The assignment one typed line contributes: key and value around the
/// first `=`, both trimmed; lines without `=` contribute nothing.
pub open spec fn spec_line_entry(l: Seq<char>) -> Seq<(Seq<char>, Seq<char>)> {
    let j = spec_find(l, '=');
    if j < 0 {
        seq![]
    } else {
        seq![(spec_trim(l.take(j)), spec_trim(l.skip(j + 1)))]
    }
}

/// The assignments a typed text contributes, line by line.
pub open spec fn spec_env_entries(lines: Seq<Seq<char>>) -> Seq<(Seq<char>, Seq<char>)>
    decreases lines.len(),
{
    if lines.len() == 0 {
        seq![]
    } else {
        spec_line_entry(lines[0]) + spec_env_entries(lines.skip(1))
    }
}

/// Insert each entry in turn, first to last.
pub open spec fn spec_insert_all(
    m: Seq<(Seq<char>, Seq<char>)>,
    entries: Seq<(Seq<char>, Seq<char>)>,
) -> Seq<(Seq<char>, Seq<char>)>
    decreases entries.len(),
{
    if entries.len() == 0 {
        m
    } else {
        spec_insert_all(assoc_insert(m, entries[0].0, entries[0].1), entries.skip(1))
    }
}

proof fn lemma_env_entries_push(lines: Seq<Seq<char>>, l: Seq<char>)
    ensures
        spec_env_entries(lines.push(l)) == spec_env_entries(lines) + spec_line_entry(l),
    decreases lines.len(),
{
    if lines.len() == 0 {
        assert(lines.push(l)[0] == l);
        assert(lines.push(l).skip(1) =~= Seq::<Seq<char>>::empty());
        assert(spec_env_entries(Seq::<Seq<char>>::empty()) == Seq::<(
            Seq<char>,
            Seq<char>,
        )>::empty());
        assert(spec_env_entries(lines.push(l)) == spec_line_entry(l) + Seq::<(
            Seq<char>,
            Seq<char>,
        )>::empty());
        assert(spec_line_entry(l) + Seq::<(Seq<char>, Seq<char>)>::empty() =~= spec_line_entry(l));
        assert(spec_env_entries(lines) + spec_line_entry(l) =~= spec_line_entry(l));
    } else {
        assert(lines.push(l)[0] == lines[0]);
        assert(lines.push(l).skip(1) =~= lines.skip(1).push(l));
        lemma_env_entries_push(lines.skip(1), l);
        assert(spec_line_entry(lines[0]) + (spec_env_entries(lines.skip(1)) + spec_line_entry(l))
            =~= spec_env_entries(lines) + spec_line_entry(l));
    }
}

proof fn lemma_insert_all_push(
    m: Seq<(Seq<char>, Seq<char>)>,
    entries: Seq<(Seq<char>, Seq<char>)>,
    e: (Seq<char>, Seq<char>),
)
    ensures
        spec_insert_all(m, entries.push(e)) == assoc_insert(spec_insert_all(m, entries), e.0, e.1),
    decreases entries.len(),
{
    if entries.len() == 0 {
        assert(entries.push(e)[0] == e);
        assert(entries.push(e).skip(1) =~= Seq::<(Seq<char>, Seq<char>)>::empty());
        assert(spec_insert_all(assoc_insert(m, e.0, e.1), entries.push(e).skip(1)) == assoc_insert(
            m,
            e.0,
            e.1,
        ));
        assert(spec_insert_all(m, entries) == m);
    } else {
        assert(entries.push(e)[0] == entries[0]);
        assert(entries.push(e).skip(1) =~= entries.skip(1).push(e));
        lemma_insert_all_push(assoc_insert(m, entries[0].0, entries[0].1), entries.skip(1), e);
        assert(spec_insert_all(m, entries.push(e)) == spec_insert_all(
            assoc_insert(m, entries[0].0, entries[0].1),
            entries.skip(1).push(e),
        ));
        assert(spec_insert_all(m, entries) == spec_insert_all(
            assoc_insert(m, entries[0].0, entries[0].1),
            entries.skip(1),
        ));
    }
}

proof fn lemma_insert_all_append_entry(
    m: Seq<(Seq<char>, Seq<char>)>,
    entries: Seq<(Seq<char>, Seq<char>)>,
    one: Seq<(Seq<char>, Seq<char>)>,
)
    requires
        one.len() <= 1,
    ensures
        spec_insert_all(m, entries + one) == if one.len() == 0 {
            spec_insert_all(m, entries)
        } else {
            assoc_insert(spec_insert_all(m, entries), one[0].0, one[0].1)
        },
{
    if one.len() == 0 {
        assert(entries + one =~= entries);
    } else {
        assert(entries + one =~= entries.push(one[0]));
        lemma_insert_all_push(m, entries, one[0]);
    }
}

proof fn lemma_insert_all_sorted(
    m: Seq<(Seq<char>, Seq<char>)>,
    entries: Seq<(Seq<char>, Seq<char>)>,
)
    requires
        assoc_sorted(m),
    ensures
        assoc_sorted(spec_insert_all(m, entries)),
    decreases entries.len(),
{
    if entries.len() > 0 {
        lemma_assoc_insert_sorted(m, entries[0].0, entries[0].1);
        lemma_insert_all_sorted(assoc_insert(m, entries[0].0, entries[0].1), entries.skip(1));
    }
}

/// What committing the current field does to the editing scratch copy:
/// write the typed text into the field it belongs to; for the template
/// field, pick the named template and apply its defaults; for the retired
/// port field, nothing.
pub open spec fn spec_save_field(s: StateView) -> StateView {
    let c = s.editing_config;
    let b = s.input_buffer;
    match s.input_field {
        InputField::Name => StateView {
            editing_config: McpConfigView { name: b, ..c },
            ..s
        },
        InputField::Template => StateView {
            editing_config: spec_apply_template(
                McpConfigView { template: spec_template_from(lower_of(b)), ..c },
            ),
            ..s
        },
        InputField::Type => StateView {
            editing_config: McpConfigView { mcp_type: spec_type_from(lower_of(b)), ..c },
            ..s
        },
        InputField::Command => StateView {
            editing_config: McpConfigView { command: b, ..c },
            ..s
        },
        InputField::Args => StateView {
            editing_config: McpConfigView { base_args: spec_split_ws(b), ..c },
            ..s
        },
        InputField::WorkingDir => StateView {
            editing_config: McpConfigView {
                working_dir: if b.len() == 0 {
                    None
                } else {
                    Some(b)
                },
                ..c
            },
            ..s
        },
        InputField::ActivationScript => StateView {
            editing_config: McpConfigView {
                activation_script: if b.len() == 0 {
                    None
                } else {
                    Some(b)
                },
                ..c
            },
            ..s
        },
        InputField::EnvVars => StateView {
            editing_config: McpConfigView {
                env_vars: spec_insert_all(c.env_vars, spec_env_entries(spec_lines(b))),
                ..c
            },
            ..s
        },
        InputField::Port => s,
    }
}

/// The text a field shows when it becomes current.
pub open spec fn spec_field_buffer(c: McpConfigView, f: InputField) -> Seq<char> {
    match f {
        InputField::Name => c.name,
        InputField::Template => spec_template_label(c.template),
        InputField::Type => spec_type_label(c.mcp_type),
        InputField::Command => c.command,
        InputField::Args => spec_join(c.base_args, " "@),
        InputField::Port => Seq::empty(),
        InputField::WorkingDir => match c.working_dir {
            Some(d) => d,
            None => Seq::empty(),
        },
        InputField::ActivationScript => match c.activation_script {
            Some(a) => a,
            None => Seq::empty(),
        },
        InputField::EnvVars => crate::launcher::spec_env_joined(c.env_vars, "\n"@),
    }
}

impl State {
    /// Commit the typed text into the field it belongs to.
    pub fn save_current_field(&mut self)
        requires
            config_wf(old(self)@.editing_config),
        ensures
            final(self)@ == spec_save_field(old(self)@),
            config_wf(final(self)@.editing_config),
    {
        match self.input_field {
            InputField::Name => {
                self.editing_config.name = self.input_buffer.clone();
                proof {
                    assert(self@ =~= spec_save_field(old(self)@));
                }
            },
            InputField::Template => {
                self.editing_config.template = template_from_input(self.input_buffer.as_str());
                apply_template_defaults(&mut self.editing_config);
                proof {
                    assert(self@ =~= spec_save_field(old(self)@));
                }
            },
            InputField::Type => {
                self.editing_config.mcp_type = type_from_input(self.input_buffer.as_str());
                proof {
                    assert(self@ =~= spec_save_field(old(self)@));
                }
            },
            InputField::Command => {
                self.editing_config.command = self.input_buffer.clone();
                proof {
                    assert(self@ =~= spec_save_field(old(self)@));
                }
            },
            InputField::Args => {
                self.editing_config.base_args = split_ws(self.input_buffer.as_str());
                proof {
                    assert(self@.editing_config.base_args =~= spec_save_field(
                        old(self)@,
                    ).editing_config.base_args);
                    assert(self@ =~= spec_save_field(old(self)@));
                }
            },
            InputField::WorkingDir => {
                self.editing_config.working_dir = if self.input_buffer.as_str().is_empty() {
                    None
                } else {
                    Some(self.input_buffer.clone())
                };
                proof {
                    assert(self@ =~= spec_save_field(old(self)@));
                }
            },
            InputField::ActivationScript => {
                self.editing_config.activation_script = if self.input_buffer.as_str().is_empty() {
                    None
                } else {
                    Some(self.input_buffer.clone())
                };
                proof {
                    assert(self@ =~= spec_save_field(old(self)@));
                }
            },
            InputField::EnvVars => {
                let lines = split_lines(self.input_buffer.as_str());
                let ghost lv: Seq<Seq<char>> = lines.deep_view();
                let ghost env0: Seq<(Seq<char>, Seq<char>)> = old(self)@.editing_config.env_vars;
                let n = lines.len();
                let mut i: usize = 0;
                proof {
                    assert(lv.take(0) =~= Seq::<Seq<char>>::empty());
                    assert(spec_env_entries(lv.take(0)) == Seq::<(Seq<char>, Seq<char>)>::empty());
                }
                while i < n
                    invariant
                        i <= n,
                        n == lines@.len(),
                        lv == lines.deep_view(),
                        env0 == old(self)@.editing_config.env_vars,
                        assoc_sorted(self.editing_config.arg_values@),
                        assoc_sorted(self.editing_config.env_vars@),
                        self.editing_config.env_vars@ == spec_insert_all(
                            env0,
                            spec_env_entries(lv.take(i as int)),
                        ),
                        self@ == (StateView {
                            editing_config: McpConfigView {
                                env_vars: self.editing_config.env_vars@,
                                ..old(self)@.editing_config
                            },
                            ..old(self)@
                        }),
                    decreases n - i,
                {
                    let line = &lines[i];
                    let ghost lw: Seq<char> = line@;
                    proof {
                        assert(lv[i as int] == lines@[i as int]@);
                        assert(lv.take(i + 1) =~= lv.take(i as int).push(lw));
                        lemma_env_entries_push(lv.take(i as int), lw);
                        lemma_insert_all_append_entry(
                            env0,
                            spec_env_entries(lv.take(i as int)),
                            spec_line_entry(lw),
                        );
                    }
                    match find_char(line.as_str(), '=') {
                        Some(j) => {
                            let len = line.as_str().unicode_len();
                            let key = trim(line.as_str().substring_char(0, j));
                            let value = trim(line.as_str().substring_char(j + 1, len));
                            proof {
                                assert(lw.subrange(0, j as int) =~= lw.take(j as int));
                                assert(lw.subrange(j + 1, len as int) =~= lw.skip(j + 1));
                                lemma_assoc_insert_sorted(
                                    self.editing_config.env_vars@,
                                    key@,
                                    value@,
                                );
                            }
                            self.editing_config.env_vars.insert(key, value);
                        },
                        None => {},
                    }
                    i += 1;
                }
                proof {
                    assert(lv.take(n as int) =~= lv);
                    assert(spec_lines(old(self)@.input_buffer) == lv);
                    assert(self@ =~= spec_save_field(old(self)@));
                }
            },
            InputField::Port => {
                proof {
                    assert(self@ =~= spec_save_field(old(self)@));
                }
            },
        }
    }

    /// Show the current field's stored text in the input buffer.
    pub fn load_field_to_buffer(&mut self)
        ensures
            final(self)@ == (StateView {
                input_buffer: spec_field_buffer(old(self)@.editing_config, old(self)@.input_field),
                ..old(self)@
            }),
    {
        self.input_buffer = match self.input_field {
            InputField::Name => self.editing_config.name.clone(),
            InputField::Template => template_label(self.editing_config.template),
            InputField::Type => type_label(self.editing_config.mcp_type),
            InputField::Command => self.editing_config.command.clone(),
            InputField::Args => crate::launcher::join_strings(&self.editing_config.base_args, " "),
            InputField::Port => String::new(),
            InputField::WorkingDir => match &self.editing_config.working_dir {
                Some(d) => d.clone(),
                None => String::new(),
            },
            InputField::ActivationScript => match &self.editing_config.activation_script {
                Some(a) => a.clone(),
                None => String::new(),
            },
            InputField::EnvVars => crate::launcher::env_joined(&self.editing_config.env_vars, "\n"),
        };
        proof {
            assert(self.editing_config.base_args.deep_view() =~= self@.editing_config.base_args);
            assert(self@ =~= StateView {
                input_buffer: spec_field_buffer(old(self)@.editing_config, old(self)@.input_field),
                ..old(self)@
            });
        }
    }

    /// Commit the current field, move the cursor to the next field of the
    /// template's cycle and show that field's text.
    pub fn next_input_field(&mut self)
        requires
            config_wf(old(self)@.editing_config),
        ensures
            final(self)@ == spec_move_field(old(self)@, true),
            config_wf(final(self)@.editing_config),
    {
        self.save_current_field();
        self.input_field = next_field(self.input_field, self.editing_config.template);
        self.load_field_to_buffer();
        proof {
            assert(self@ =~= spec_move_field(old(self)@, true));
        }
    }

    /// Commit the current field, move the cursor to the previous field of
    /// the template's cycle and show that field's text.
    pub fn prev_input_field(&mut self)
        requires
            config_wf(old(self)@.editing_config),
        ensures
            final(self)@ == spec_move_field(old(self)@, false),
            config_wf(final(self)@.editing_config),
    {
        self.save_current_field();
        self.input_field = prev_field(self.input_field, self.editing_config.template);
        self.load_field_to_buffer();
        proof {
            assert(self@ =~= spec_move_field(old(self)@, false));
        }
    }
}

/// Committing the current field and stepping the cursor forward or
/// backward, template-aware: what the tab keys do on the editing screen.
pub open spec fn spec_move_field(s: StateView, forward: bool) -> StateView {
    let s1 = spec_save_field(s);
    let f = if forward {
        spec_next_field(s.input_field, s1.editing_config.template)
    } else {
        spec_prev_field(s.input_field, s1.editing_config.template)
    };
    StateView {
        input_field: f,
        input_buffer: spec_field_buffer(s1.editing_config, f),
        ..s1
    }
}

impl DeepView for Effect {
    type V = EffectView;

    open spec fn deep_view(&self) -> EffectView {
        self@
    }
}

// ---------- the messages a step can leave behind ----------

/// The error shown when a required dynamic argument has no value.
pub open spec fn msg_missing(name: Seq<char>) -> Seq<char> {
    "Required argument '"@ + name + "' is missing"@
}

/// The success shown after a stop.
pub open spec fn msg_stopped(name: Seq<char>) -> Seq<char> {
    "Stopped MCP: "@ + name
}

/// The success shown after a launch.
pub open spec fn msg_launched(name: Seq<char>, session: Seq<char>) -> Seq<char> {
    "Launched MCP: "@ + name + " in tmux session: "@ + session
}

/// The error shown when the spawn itself failed, with the system's words.
pub open spec fn msg_launch_failed(err: Seq<char>) -> Seq<char> {
    "Failed to launch MCP: "@ + err
}

// ---------- shared pieces of the transition relation ----------

/// The text shown for the dynamic argument at a position: its supplied
/// value, else its default, else nothing; out of range, the buffer keeps
/// its old text.
pub open spec fn spec_arg_buffer(c: McpConfigView, i: int, old_buf: Seq<char>) -> Seq<char> {
    if 0 <= i < c.dynamic_args.len() {
        let a = c.dynamic_args[i];
        match assoc_get(c.arg_values, a.name) {
            Some(v) => v,
            None => match a.default {
                Some(d) => d,
                None => Seq::empty(),
            },
        }
    } else {
        old_buf
    }
}

/// Position of the first configuration with a name, or `-1`.
pub open spec fn spec_config_index(cs: Seq<McpConfigView>, name: Seq<char>) -> int
    decreases cs.len(),
{
    if cs.len() == 0 {
        -1
    } else if cs[0].name == name {
        0
    } else if spec_config_index(cs.skip(1), name) < 0 {
        -1
    } else {
        1 + spec_config_index(cs.skip(1), name)
    }
}

/// Stopping the selected instance: kill its session best-effort, drop its
/// record, report the stop.
pub open spec fn stop_step(s: StateView, t: StateView, eff: Seq<EffectView>) -> bool {
    if s.selected_index < s.instances.len() {
        let inst = s.instances[s.selected_index];
        &&& t == (StateView {
            instances: crate::registry::reg_remove(s.instances, inst.config.name),
            success_message: Some(msg_stopped(inst.config.name)),
            ..s
        })
        &&& eff == seq![EffectView::KillSession(inst.session_name)]
    } else {
        t == s && eff == Seq::<EffectView>::empty()
    }
}

/// Restarting the selected instance: stop it, then launch its launch-time
/// configuration snapshot again; a missing required argument aborts the
/// relaunch with its name and spawns nothing.
pub open spec fn restart_step(s: StateView, t: StateView, eff: Seq<EffectView>) -> bool {
    if s.selected_index < s.instances.len() {
        let inst = s.instances[s.selected_index];
        let stopped = StateView {
            instances: crate::registry::reg_remove(s.instances, inst.config.name),
            success_message: Some(msg_stopped(inst.config.name)),
            ..s
        };
        match crate::resolver::spec_build_command_tokens(inst.config) {
            Err(name) => {
                &&& t == (StateView { error_message: Some(msg_missing(name)), ..stopped })
                &&& eff == seq![EffectView::KillSession(inst.session_name)]
            },
            Ok(_) => {
                let plan = crate::launcher::spec_launch_plan(inst.config);
                &&& t == (StateView {
                    pending_launch: Some(
                        PendingLaunchView { config: inst.config, plan },
                    ),
                    ..stopped
                })
                &&& eff == seq![
                    EffectView::KillSession(inst.session_name),
                    EffectView::SpawnSession(plan.shell_command),
                ]
            },
        }
    } else {
        t == s && eff == Seq::<EffectView>::empty()
    }
}

// ---------- the per-screen transition relations ----------

/// The main menu's answers to one key event.
pub open spec fn main_menu_step(
    s: StateView,
    k: KeyEvent,
    t: StateView,
    render: bool,
    eff: Seq<EffectView>,
) -> bool {
    if k.plain() && k.key == Key::Char('1') {
        t == (StateView { screen: ScreenView::CurrentMcps, ..s }) && render && eff
            == Seq::<EffectView>::empty()
    } else if k.plain() && k.key == Key::Char('2') {
        t == (StateView { screen: ScreenView::LaunchMcp, selected_index: 0, ..s }) && render && eff
            == Seq::<EffectView>::empty()
    } else if k.plain() && k.key == Key::Char('3') {
        t == (StateView {
            screen: ScreenView::AddMcp,
            editing_config: spec_default_config(),
            input_buffer: Seq::empty(),
            input_field: InputField::Name,
            ..s
        }) && render && eff == Seq::<EffectView>::empty()
    } else if k.plain() && (k.key == Key::Char('q') || k.key == Key::Esc) {
        t == s && !render && eff == seq![EffectView::Hide]
    } else {
        t == s && !render && eff == Seq::<EffectView>::empty()
    }
}

/// The running-instances screen's answers to one key event.
pub open spec fn current_mcps_step(
    s: StateView,
    k: KeyEvent,
    t: StateView,
    render: bool,
    eff: Seq<EffectView>,
) -> bool {
    if k.plain() && k.key == Key::Up {
        t == (StateView {
            selected_index: if s.selected_index > 0 {
                s.selected_index - 1
            } else {
                s.selected_index
            },
            ..s
        }) && render && eff == Seq::<EffectView>::empty()
    } else if k.plain() && k.key == Key::Down {
        let max = if s.instances.len() > 0 {
            s.instances.len() - 1
        } else {
            0
        };
        t == (StateView {
            selected_index: if s.selected_index < max {
                s.selected_index + 1
            } else {
                s.selected_index
            },
            ..s
        }) && render && eff == Seq::<EffectView>::empty()
    } else if k.plain() && k.key == Key::Enter {
        if s.selected_index < s.instances.len() {
            let session = s.instances[s.selected_index].session_name;
            t == s && render && eff == seq![
                EffectView::OpenTerminal("tmux"@),
                EffectView::OpenCommandPane {
                    path: "tmux"@,
                    args: seq!["attach-session"@, "-t"@, session],
                },
                EffectView::Hide,
            ]
        } else {
            t == s && render && eff == Seq::<EffectView>::empty()
        }
    } else if k.plain() && k.key == Key::Char('s') {
        stop_step(s, t, eff) && render
    } else if k.plain() && k.key == Key::Char('r') {
        restart_step(s, t, eff) && render
    } else if k.plain() && (k.key == Key::Char('b') || k.key == Key::Esc) {
        t == (StateView { screen: ScreenView::MainMenu, ..s }) && render && eff
            == Seq::<EffectView>::empty()
    } else {
        t == s && !render && eff == Seq::<EffectView>::empty()
    }
}

/// The launch screen's answers to one key event.
pub open spec fn launch_mcp_step(
    s: StateView,
    k: KeyEvent,
    t: StateView,
    render: bool,
    eff: Seq<EffectView>,
) -> bool {
    if k.plain() && k.key == Key::Up {
        t == (StateView {
            selected_index: if s.selected_index > 0 {
                s.selected_index - 1
            } else {
                s.selected_index
            },
            ..s
        }) && render && eff == Seq::<EffectView>::empty()
    } else if k.plain() && k.key == Key::Down {
        let max = if s.configs.len() > 0 {
            s.configs.len() - 1
        } else {
            0
        };
        t == (StateView {
            selected_index: if s.selected_index < max {
                s.selected_index + 1
            } else {
                s.selected_index
            },
            ..s
        }) && render && eff == Seq::<EffectView>::empty()
    } else if k.plain() && k.key == Key::Enter {
        if s.selected_index < s.configs.len() {
            let c = s.configs[s.selected_index];
            t == (StateView {
                screen: ScreenView::ConfigureArgs(c),
                editing_arg_index: 0,
                input_buffer: spec_arg_buffer(c, 0, s.input_buffer),
                ..s
            }) && render && eff == Seq::<EffectView>::empty()
        } else {
            t == s && render && eff == Seq::<EffectView>::empty()
        }
    } else if k.plain() && k.key == Key::Char('e') {
        if s.selected_index < s.configs.len() {
            let c = s.configs[s.selected_index];
            t == (StateView {
                screen: ScreenView::EditMcp(c.name),
                editing_config: c,
                input_buffer: c.name,
                input_field: InputField::Name,
                ..s
            }) && render && eff == Seq::<EffectView>::empty()
        } else {
            t == s && render && eff == Seq::<EffectView>::empty()
        }
    } else if k.plain() && k.key == Key::Char('d') {
        if s.selected_index < s.configs.len() {
            let remaining = s.configs.remove(s.selected_index);
            t == (StateView {
                configs: remaining,
                selected_index: if s.selected_index > 0 && s.selected_index >= remaining.len() {
                    s.selected_index - 1
                } else {
                    s.selected_index
                },
                success_message: Some("Configuration deleted"@),
                ..s
            }) && render && eff == seq![EffectView::SaveConfigs]
        } else {
            t == s && render && eff == Seq::<EffectView>::empty()
        }
    } else if k.plain() && (k.key == Key::Char('b') || k.key == Key::Esc) {
        t == (StateView { screen: ScreenView::MainMenu, ..s }) && render && eff
            == Seq::<EffectView>::empty()
    } else {
        t == s && !render && eff == Seq::<EffectView>::empty()
    }
}

// ---------- the per-screen handlers ----------

impl State {
    /// Stop the selected instance: ask for its session to be killed, drop
    /// its record, report the stop.
    pub fn stop_selected_mcp(&mut self) -> (eff: Vec<Effect>)
        requires
            state_wf(old(self)@),
        ensures
            stop_step(old(self)@, final(self)@, eff.deep_view()),
            state_wf(final(self)@),
    {
        let mut eff: Vec<Effect> = Vec::new();
        if self.selected_index >= self.instances.len() {
            proof {
                assert(eff.deep_view() =~= Seq::<EffectView>::empty());
            }
            return eff;
        }
        let name;
        let session;
        {
            let inst = self.instances.get_at(self.selected_index);
            name = inst.config.name.clone();
            session = inst.session_name.clone();
        }
        self.instances.remove_name(name.as_str());
        let mut message = "Stopped MCP: ".to_owned();
        message.append(name.as_str());
        self.success_message = Some(message);
        eff.push(Effect::KillSession(session));
        proof {
            crate::registry::lemma_reg_remove_sorted(
                old(self)@.instances,
                old(self)@.instances[old(self)@.selected_index].config.name,
            );
            lemma_reg_remove_configs_wf(old(self)@.instances, name@);
            assert(eff.deep_view() =~= seq![
                EffectView::KillSession(old(self)@.instances[old(self)@.selected_index].session_name),
            ]);
            assert(final(self)@ =~= (StateView {
                instances: crate::registry::reg_remove(
                    old(self)@.instances,
                    old(self)@.instances[old(self)@.selected_index].config.name,
                ),
                success_message: Some(
                    msg_stopped(old(self)@.instances[old(self)@.selected_index].config.name),
                ),
                ..old(self)@
            }));
        }
        eff
    }

    /// Restart the selected instance: stop it, then launch the snapshot its
    /// record holds. A missing required argument aborts the relaunch,
    /// naming the argument; nothing is spawned then.
    pub fn restart_selected_mcp(&mut self) -> (eff: Vec<Effect>)
        requires
            state_wf(old(self)@),
        ensures
            restart_step(old(self)@, final(self)@, eff.deep_view()),
            state_wf(final(self)@),
    {
        let mut eff: Vec<Effect> = Vec::new();
        if self.selected_index >= self.instances.len() {
            proof {
                assert(eff.deep_view() =~= Seq::<EffectView>::empty());
            }
            return eff;
        }
        let config;
        let name;
        let session;
        {
            let inst = self.instances.get_at(self.selected_index);
            config = inst.config.duplicate();
            name = inst.config.name.clone();
            session = inst.session_name.clone();
        }
        self.instances.remove_name(name.as_str());
        let mut message = "Stopped MCP: ".to_owned();
        message.append(name.as_str());
        self.success_message = Some(message);
        eff.push(Effect::KillSession(session));
        proof {
            crate::registry::lemma_reg_remove_sorted(
                old(self)@.instances,
                old(self)@.instances[old(self)@.selected_index].config.name,
            );
            lemma_reg_remove_configs_wf(old(self)@.instances, name@);
        }
        match crate::launcher::prepare_launch(&config) {
            Ok(plan) => {
                eff.push(Effect::SpawnSession(plan.shell_command.clone()));
                self.pending_launch = Some(PendingLaunch { config, plan });
                proof {
                    let inst0 = old(self)@.instances[old(self)@.selected_index];
                    assert(eff.deep_view() =~= seq![
                        EffectView::KillSession(inst0.session_name),
                        EffectView::SpawnSession(
                            crate::launcher::spec_launch_plan(inst0.config).shell_command,
                        ),
                    ]);
                    assert(final(self)@ =~= (StateView {
                        pending_launch: Some(
                            PendingLaunchView {
                                config: inst0.config,
                                plan: crate::launcher::spec_launch_plan(inst0.config),
                            },
                        ),
                        instances: crate::registry::reg_remove(
                            old(self)@.instances,
                            inst0.config.name,
                        ),
                        success_message: Some(msg_stopped(inst0.config.name)),
                        ..old(self)@
                    }));
                }
            },
            Err(e) => {
                let mut err = "Required argument '".to_owned();
                err.append(e.name.as_str());
                err.append("' is missing");
                self.error_message = Some(err);
                proof {
                    let inst0 = old(self)@.instances[old(self)@.selected_index];
                    assert(eff.deep_view() =~= seq![EffectView::KillSession(inst0.session_name)]);
                    assert(final(self)@ =~= (StateView {
                        error_message: Some(msg_missing(e.name@)),
                        instances: crate::registry::reg_remove(
                            old(self)@.instances,
                            inst0.config.name,
                        ),
                        success_message: Some(msg_stopped(inst0.config.name)),
                        ..old(self)@
                    }));
                }
            },
        }
        eff
    }

    /// Answer one key event on the main menu.
    #[verifier::rlimit(60)]
    pub fn handle_main_menu_key(&mut self, k: KeyEvent) -> (r: (bool, Vec<Effect>))
        requires
            state_wf(old(self)@),
        ensures
            main_menu_step(old(self)@, k, final(self)@, r.0, r.1.deep_view()),
            state_wf(final(self)@),
    {
        let plain = k.is_plain();
        let mut eff: Vec<Effect> = Vec::new();
        proof {
            assert(eff.deep_view() =~= Seq::<EffectView>::empty());
        }
        match k.key {
            Key::Char('1') => {
                if plain {
                    self.screen = Screen::CurrentMcps;
                    proof {
                        assert(final(self)@ =~= (StateView {
                            screen: ScreenView::CurrentMcps,
                            ..old(self)@
                        }));
                    }
                    (true, eff)
                } else {
                    (false, eff)
                }
            },
            Key::Char('2') => {
                if plain {
                    self.screen = Screen::LaunchMcp;
                    self.selected_index = 0;
                    proof {
                        assert(final(self)@ =~= (StateView {
                            screen: ScreenView::LaunchMcp,
                            selected_index: 0,
                            ..old(self)@
                        }));
                    }
                    (true, eff)
                } else {
                    (false, eff)
                }
            },
            Key::Char('3') => {
                if plain {
                    self.screen = Screen::AddMcp;
                    self.editing_config = McpConfig::default();
                    self.input_buffer = String::new();
                    self.input_field = InputField::Name;
                    proof {
                        assert(final(self)@ =~= (StateView {
                            screen: ScreenView::AddMcp,
                            editing_config: spec_default_config(),
                            input_buffer: Seq::<char>::empty(),
                            input_field: InputField::Name,
                            ..old(self)@
                        }));
                    }
                    (true, eff)
                } else {
                    (false, eff)
                }
            },
            Key::Char('q') => {
                if plain {
                    eff.push(Effect::Hide);
                    proof {
                        assert(eff.deep_view() =~= seq![EffectView::Hide]);
                    }
                    (false, eff)
                } else {
                    (false, eff)
                }
            },
            Key::Esc => {
                if plain {
                    eff.push(Effect::Hide);
                    proof {
                        assert(eff.deep_view() =~= seq![EffectView::Hide]);
                    }
                    (false, eff)
                } else {
                    (false, eff)
                }
            },
            _ => (false, eff),
        }
    }

    /// Answer one key event on the running-instances screen.
    #[verifier::rlimit(60)]
    pub fn handle_current_mcps_key(&mut self, k: KeyEvent) -> (r: (bool, Vec<Effect>))
        requires
            state_wf(old(self)@),
        ensures
            current_mcps_step(old(self)@, k, final(self)@, r.0, r.1.deep_view()),
            state_wf(final(self)@),
    {
        let plain = k.is_plain();
        let mut eff: Vec<Effect> = Vec::new();
        proof {
            assert(eff.deep_view() =~= Seq::<EffectView>::empty());
        }
        match k.key {
            Key::Up => {
                if plain {
                    if self.selected_index > 0 {
                        self.selected_index = self.selected_index - 1;
                    }
                    proof {
                        assert(final(self)@ =~= (StateView {
                            selected_index: final(self)@.selected_index,
                            ..old(self)@
                        }));
                    }
                    (true, eff)
                } else {
                    (false, eff)
                }
            },
            Key::Down => {
                if plain {
                    let count = self.instances.len();
                    let max = if count > 0 {
                        count - 1
                    } else {
                        0
                    };
                    if self.selected_index < max {
                        self.selected_index = self.selected_index + 1;
                    }
                    proof {
                        assert(final(self)@ =~= (StateView {
                            selected_index: final(self)@.selected_index,
                            ..old(self)@
                        }));
                    }
                    (true, eff)
                } else {
                    (false, eff)
                }
            },
            Key::Enter => {
                if plain {
                    if self.selected_index < self.instances.len() {
                        let session = self.instances.get_at(self.selected_index).session_name.clone();
                        eff.push(Effect::OpenTerminal("tmux".to_owned()));
                        let mut args: Vec<String> = Vec::new();
                        args.push("attach-session".to_owned());
                        args.push("-t".to_owned());
                        args.push(session);
                        eff.push(Effect::OpenCommandPane { path: "tmux".to_owned(), args });
                        eff.push(Effect::Hide);
                        proof {
                            assert(eff.deep_view() =~~= seq![
                                EffectView::OpenTerminal("tmux"@),
                                EffectView::OpenCommandPane {
                                    path: "tmux"@,
                                    args: seq![
                                        "attach-session"@,
                                        "-t"@,
                                        old(self)@.instances[old(self)@.selected_index].session_name,
                                    ],
                                },
                                EffectView::Hide,
                            ]);
                        }
                    }
                    (true, eff)
                } else {
                    (false, eff)
                }
            },
            Key::Char('s') => {
                if plain {
                    let eff2 = self.stop_selected_mcp();
                    (true, eff2)
                } else {
                    (false, eff)
                }
            },
            Key::Char('r') => {
                if plain {
                    let eff2 = self.restart_selected_mcp();
                    (true, eff2)
                } else {
                    (false, eff)
                }
            },
            Key::Char('b') => {
                if plain {
                    self.screen = Screen::MainMenu;
                    proof {
                        assert(final(self)@ =~= (StateView {
                            screen: ScreenView::MainMenu,
                            ..old(self)@
                        }));
                    }
                    (true, eff)
                } else {
                    (false, eff)
                }
            },
            Key::Esc => {
                if plain {
                    self.screen = Screen::MainMenu;
                    proof {
                        assert(final(self)@ =~= (StateView {
                            screen: ScreenView::MainMenu,
                            ..old(self)@
                        }));
                    }
                    (true, eff)
                } else {
                    (false, eff)
                }
            },
            _ => (false, eff),
        }
    }

    /// Answer one key event on the launch screen.
    #[verifier::rlimit(60)]
    pub fn handle_launch_mcp_key(&mut self, k: KeyEvent) -> (r: (bool, Vec<Effect>))
        requires
            state_wf(old(self)@),
        ensures
            launch_mcp_step(old(self)@, k, final(self)@, r.0, r.1.deep_view()),
            state_wf(final(self)@),
    {
        let plain = k.is_plain();
        let mut eff: Vec<Effect> = Vec::new();
        proof {
            assert(eff.deep_view() =~= Seq::<EffectView>::empty());
        }
        match k.key {
            Key::Up => {
                if plain {
                    if self.selected_index > 0 {
                        self.selected_index = self.selected_index - 1;
                    }
                    proof {
                        assert(final(self)@ =~= (StateView {
                            selected_index: final(self)@.selected_index,
                            ..old(self)@
                        }));
                    }
                    (true, eff)
                } else {
                    (false, eff)
                }
            },
            Key::Down => {
                if plain {
                    let count = self.configs.len();
                    let max = if count > 0 {
                        count - 1
                    } else {
                        0
                    };
                    if self.selected_index < max {
                        self.selected_index = self.selected_index + 1;
                    }
                    proof {
                        assert(final(self)@ =~= (StateView {
                            selected_index: final(self)@.selected_index,
                            ..old(self)@
                        }));
                    }
                    (true, eff)
                } else {
                    (false, eff)
                }
            },
            Key::Enter => {
                if plain {
                    if self.selected_index < self.configs.len() {
                        let chosen = self.configs[self.selected_index].duplicate();
                        self.screen = Screen::ConfigureArgs(chosen);
                        self.editing_arg_index = 0;
                        self.load_arg_value_to_buffer();
                        proof {
                            let c = old(self)@.configs[old(self)@.selected_index];
                            assert(final(self)@ =~= (StateView {
                                screen: ScreenView::ConfigureArgs(c),
                                editing_arg_index: 0,
                                input_buffer: spec_arg_buffer(c, 0, old(self)@.input_buffer),
                                ..old(self)@
                            }));
                        }
                    }
                    (true, eff)
                } else {
                    (false, eff)
                }
            },
            Key::Char('e') => {
                if plain {
                    if self.selected_index < self.configs.len() {
                        let chosen = self.configs[self.selected_index].duplicate();
                        self.input_buffer = chosen.name.clone();
                        self.screen = Screen::EditMcp(chosen.name.clone());
                        self.editing_config = chosen;
                        self.input_field = InputField::Name;
                        proof {
                            let c = old(self)@.configs[old(self)@.selected_index];
                            assert(final(self)@ =~= (StateView {
                                screen: ScreenView::EditMcp(c.name),
                                editing_config: c,
                                input_buffer: c.name,
                                input_field: InputField::Name,
                                ..old(self)@
                            }));
                        }
                    }
                    (true, eff)
                } else {
                    (false, eff)
                }
            },
            Key::Char('d') => {
                if plain {
                    if self.selected_index < self.configs.len() {
                        self.configs.remove(self.selected_index);
                        if self.selected_index > 0 && self.selected_index >= self.configs.len() {
                            self.selected_index = self.selected_index - 1;
                        }
                        self.success_message = Some("Configuration deleted".to_owned());
                        eff.push(Effect::SaveConfigs);
                        proof {
                            let remaining = old(self)@.configs.remove(old(self)@.selected_index);
                            assert(final(self)@.configs =~= remaining);
                            assert(eff.deep_view() =~= seq![EffectView::SaveConfigs]);
                            assert(final(self)@ =~= (StateView {
                                configs: remaining,
                                selected_index: final(self)@.selected_index,
                                success_message: Some("Configuration deleted"@),
                                ..old(self)@
                            }));
                        }
                    }
                    (true, eff)
                } else {
                    (false, eff)
                }
            },
            Key::Char('b') => {
                if plain {
                    self.screen = Screen::MainMenu;
                    proof {
                        assert(final(self)@ =~= (StateView {
                            screen: ScreenView::MainMenu,
                            ..old(self)@
                        }));
                    }
                    (true, eff)
                } else {
                    (false, eff)
                }
            },
            Key::Esc => {
                if plain {
                    self.screen = Screen::MainMenu;
                    proof {
                        assert(final(self)@ =~= (StateView {
                            screen: ScreenView::MainMenu,
                            ..old(self)@
                        }));
                    }
                    (true, eff)
                } else {
                    (false, eff)
                }
            },
            _ => (false, eff),
        }
    }

    /// Show the current dynamic argument's value — or its default — in the
    /// input buffer; outside the argument range the buffer stays.
    pub fn load_arg_value_to_buffer(&mut self)
        ensures
            final(self)@ == (StateView {
                input_buffer: match old(self)@.screen {
                    ScreenView::ConfigureArgs(c) => spec_arg_buffer(
                        c,
                        old(self)@.editing_arg_index,
                        old(self)@.input_buffer,
                    ),
                    _ => old(self)@.input_buffer,
                },
                ..old(self)@
            }),
    {
        match &self.screen {
            Screen::ConfigureArgs(config) => {
                if self.editing_arg_index < config.dynamic_args.len() {
                    let arg = &config.dynamic_args[self.editing_arg_index];
                    let buffer = match config.arg_values.get(arg.name.as_str()) {
                        Some(v) => v,
                        None => match &arg.default {
                            Some(d) => d.clone(),
                            None => String::new(),
                        },
                    };
                    self.input_buffer = buffer;
                }
            },
            _ => {},
        }
        proof {
            assert(final(self)@ =~= (StateView {
                input_buffer: final(self)@.input_buffer,
                ..old(self)@
            }));
        }
    }
}

/// Dropping an instance record keeps every remaining configuration well
/// formed.
proof fn lemma_reg_remove_configs_wf(m: Seq<crate::config::InstanceView>, name: Seq<char>)
    requires
        forall|i: int| 0 <= i < m.len() ==> config_wf((#[trigger] m[i]).config),
    ensures
        forall|i: int|
            0 <= i < crate::registry::reg_remove(m, name).len() ==> config_wf(
                (#[trigger] crate::registry::reg_remove(m, name)[i]).config,
            ),
    decreases m.len(),
{
    let r = crate::registry::reg_remove(m, name);
    if m.len() == 0 {
    } else if m[0].config.name == name {
        assert(forall|i: int| 0 <= i < r.len() ==> r[i] == m[i + 1]);
    } else {
        assert(forall|i: int| 0 <= i < m.skip(1).len() ==> m.skip(1)[i] == m[i + 1]);
        lemma_reg_remove_configs_wf(m.skip(1), name);
        assert(forall|i: int|
            1 <= i < r.len() ==> r[i] == crate::registry::reg_remove(m.skip(1), name)[i - 1]);
        assert(r.len() > 0 ==> r[0] == m[0]);
    }
}

// ---------- the editing screen ----------

/// Saving the edited configuration: reject an empty name or command with a
/// message; otherwise commit the current field once more, write the scratch
/// copy back — replacing the configuration that had the edited name, or
/// appending a new one — report the save, and return to the launch screen.
pub open spec fn save_config_step(s: StateView, t: StateView, eff: Seq<EffectView>) -> bool {
    if s.editing_config.name.len() == 0 {
        t == (StateView { error_message: Some("Name cannot be empty"@), ..s }) && eff
            == Seq::<EffectView>::empty()
    } else if s.editing_config.command.len() == 0 {
        t == (StateView { error_message: Some("Command cannot be empty"@), ..s }) && eff
            == Seq::<EffectView>::empty()
    } else {
        let s2 = spec_save_field(s);
        let stored = match s.screen {
            ScreenView::EditMcp(old_name) => {
                let i = spec_config_index(s2.configs, old_name);
                if i >= 0 {
                    s2.configs.update(i, s2.editing_config)
                } else {
                    s2.configs
                }
            },
            ScreenView::AddMcp => s2.configs.push(s2.editing_config),
            _ => s2.configs,
        };
        t == (StateView {
            configs: stored,
            screen: ScreenView::LaunchMcp,
            success_message: Some("Configuration saved"@),
            ..s2
        }) && eff == seq![EffectView::SaveConfigs]
    }
}

/// The add/edit screen's answers to one key event.
pub open spec fn add_edit_step(
    s: StateView,
    k: KeyEvent,
    t: StateView,
    render: bool,
    eff: Seq<EffectView>,
) -> bool {
    if k.key == Key::Char('d') && k.ctrl && s.input_field is WorkingDir {
        let start = match s.editing_config.working_dir {
            Some(d) => d,
            None => s.home_dir,
        };
        t == (StateView {
            screen: ScreenView::BrowseDirectory {
                return_field: s.input_field,
                return_arg: None,
                current_path: start,
                entries: seq![".."@],
                selected_index: 0,
            },
            ..s
        }) && render && eff == seq![EffectView::ReadDir(start)]
    } else if k.plain() && k.key == Key::Tab {
        t == spec_move_field(s, true) && render && eff == Seq::<EffectView>::empty()
    } else if k.shift && k.key == Key::Tab {
        t == spec_move_field(s, false) && render && eff == Seq::<EffectView>::empty()
    } else if k.plain() && k.key == Key::Enter {
        let s1 = spec_save_field(s);
        if s.input_field is EnvVars {
            save_config_step(s1, t, eff) && render
        } else {
            t == spec_move_field(s1, true) && render && eff == Seq::<EffectView>::empty()
        }
    } else if k.plain() && (k.key matches Key::Char(_)) {
        t == (StateView { input_buffer: s.input_buffer.push(k.key->Char_0), ..s }) && render && eff
            == Seq::<EffectView>::empty()
    } else if k.plain() && k.key == Key::Backspace {
        t == (StateView {
            input_buffer: if s.input_buffer.len() > 0 {
                s.input_buffer.drop_last()
            } else {
                s.input_buffer
            },
            ..s
        }) && render && eff == Seq::<EffectView>::empty()
    } else if k.plain() && k.key == Key::Esc {
        t == (StateView { screen: ScreenView::LaunchMcp, ..s }) && render && eff
            == Seq::<EffectView>::empty()
    } else {
        t == s && !render && eff == Seq::<EffectView>::empty()
    }
}

impl State {
    /// Validate and store the edited configuration; reject an empty name or
    /// command.
    pub fn save_mcp_config(&mut self) -> (eff: Vec<Effect>)
        requires
            state_wf(old(self)@),
        ensures
            save_config_step(old(self)@, final(self)@, eff.deep_view()),
            state_wf(final(self)@),
    {
        let mut eff: Vec<Effect> = Vec::new();
        proof {
            assert(eff.deep_view() =~= Seq::<EffectView>::empty());
        }
        if self.editing_config.name.as_str().is_empty() {
            self.error_message = Some("Name cannot be empty".to_owned());
            proof {
                assert(final(self)@ =~= (StateView {
                    error_message: Some("Name cannot be empty"@),
                    ..old(self)@
                }));
            }
            return eff;
        }
        if self.editing_config.command.as_str().is_empty() {
            self.error_message = Some("Command cannot be empty".to_owned());
            proof {
                assert(final(self)@ =~= (StateView {
                    error_message: Some("Command cannot be empty"@),
                    ..old(self)@
                }));
            }
            return eff;
        }
        self.save_current_field();
        let ghost s2 = spec_save_field(old(self)@);
        match &self.screen {
            Screen::EditMcp(old_name) => {
                let name = old_name.clone();
                let n = self.configs.len();
                let mut i: usize = 0;
                while i < n && !crate::text::str_eq(self.configs[i].name.as_str(), name.as_str())
                    invariant
                        i <= n,
                        n == self.configs@.len(),
                        forall|j: int|
                            0 <= j < i ==> (#[trigger] self@.configs[j]).name != name@,
                        self@.configs == s2.configs,
                        name@ == (old(self)@.screen)->EditMcp_0,
                    decreases n - i,
                {
                    proof {
                        assert(self@.configs[i as int].name == self.configs@[i as int].name@);
                    }
                    i += 1;
                }
                proof {
                    lemma_config_index_from(s2.configs, name@, i as int);
                }
                if i < n {
                    proof {
                        assert(self@.configs[i as int].name == self.configs@[i as int].name@);
                        assert(spec_config_index(s2.configs, name@) == i as int);
                    }
                    let replacement = self.editing_config.duplicate();
                    self.configs.set(i, replacement);
                    proof {
                        assert(self@.configs =~= s2.configs.update(
                            i as int,
                            s2.editing_config,
                        ));
                    }
                } else {
                    proof {
                        assert(spec_config_index(s2.configs, name@) == -1);
                    }
                }
            },
            Screen::AddMcp => {
                let addition = self.editing_config.duplicate();
                self.configs.push(addition);
                proof {
                    assert(self@.configs =~= s2.configs.push(s2.editing_config));
                }
            },
            _ => {},
        }
        self.success_message = Some("Configuration saved".to_owned());
        self.screen = Screen::LaunchMcp;
        eff.push(Effect::SaveConfigs);
        proof {
            assert(eff.deep_view() =~= seq![EffectView::SaveConfigs]);
            let stored = match old(self)@.screen {
                ScreenView::EditMcp(old_name) => {
                    let ix = spec_config_index(s2.configs, old_name);
                    if ix >= 0 {
                        s2.configs.update(ix, s2.editing_config)
                    } else {
                        s2.configs
                    }
                },
                ScreenView::AddMcp => s2.configs.push(s2.editing_config),
                _ => s2.configs,
            };
            assert(final(self)@ =~= (StateView {
                configs: stored,
                screen: ScreenView::LaunchMcp,
                success_message: Some("Configuration saved"@),
                ..s2
            }));
        }
        eff
    }

    /// Answer one key event on the add/edit screen.
    pub fn handle_add_edit_mcp_key(&mut self, k: KeyEvent) -> (r: (bool, Vec<Effect>))
        requires
            state_wf(old(self)@),
        ensures
            add_edit_step(old(self)@, k, final(self)@, r.0, r.1.deep_view()),
            state_wf(final(self)@),
    {
        let plain = k.is_plain();
        let mut eff: Vec<Effect> = Vec::new();
        proof {
            assert(eff.deep_view() =~= Seq::<EffectView>::empty());
        }
        if k.ctrl && matches!(k.key, Key::Char('d')) && matches!(
            self.input_field,
            InputField::WorkingDir,
        ) {
            let start = match &self.editing_config.working_dir {
                Some(d) => d.clone(),
                None => self.home_dir.clone(),
            };
            let mut entries: Vec<String> = Vec::new();
            entries.push("..".to_owned());
            eff.push(Effect::ReadDir(start.clone()));
            let rf = self.input_field;
            self.screen = Screen::BrowseDirectory {
                return_field: rf,
                return_arg: None,
                current_path: start,
                entries,
                selected_index: 0,
            };
            proof {
                let startv = match old(self)@.editing_config.working_dir {
                    Some(d) => d,
                    None => old(self)@.home_dir,
                };
                assert(eff.deep_view() =~= seq![EffectView::ReadDir(startv)]);
                assert(final(self)@ =~= (StateView {
                    screen: ScreenView::BrowseDirectory {
                        return_field: old(self)@.input_field,
                        return_arg: None,
                        current_path: startv,
                        entries: seq![".."@],
                        selected_index: 0,
                    },
                    ..old(self)@
                }));
            }
            return (true, eff);
        }
        match k.key {
            Key::Tab => {
                if plain {
                    self.next_input_field();
                    (true, eff)
                } else if k.shift {
                    self.prev_input_field();
                    (true, eff)
                } else {
                    (false, eff)
                }
            },
            Key::Enter => {
                if plain {
                    self.save_current_field();
                    if matches!(self.input_field, InputField::EnvVars) {
                        let eff2 = self.save_mcp_config();
                        (true, eff2)
                    } else {
                        self.next_input_field();
                        proof {
                            lemma_save_field_twice_fields(old(self)@);
                        }
                        (true, eff)
                    }
                } else {
                    (false, eff)
                }
            },
            Key::Char(c) => {
                if plain {
                    crate::text::push_char(&mut self.input_buffer, c);
                    proof {
                        assert(final(self)@ =~= (StateView {
                            input_buffer: old(self)@.input_buffer.push(c),
                            ..old(self)@
                        }));
                    }
                    (true, eff)
                } else {
                    (false, eff)
                }
            },
            Key::Backspace => {
                if plain {
                    crate::text::pop_char(&mut self.input_buffer);
                    proof {
                        assert(final(self)@ =~= (StateView {
                            input_buffer: final(self)@.input_buffer,
                            ..old(self)@
                        }));
                    }
                    (true, eff)
                } else {
                    (false, eff)
                }
            },
            Key::Esc => {
                if plain {
                    self.screen = Screen::LaunchMcp;
                    proof {
                        assert(final(self)@ =~= (StateView {
                            screen: ScreenView::LaunchMcp,
                            ..old(self)@
                        }));
                    }
                    (true, eff)
                } else {
                    (false, eff)
                }
            },
            _ => (false, eff),
        }
    }
}

/// Scanning a prefix without the name pins the position the walk finds.
proof fn lemma_config_index_from(cs: Seq<McpConfigView>, name: Seq<char>, i: int)
    requires
        0 <= i <= cs.len(),
        forall|j: int| 0 <= j < i ==> (#[trigger] cs[j]).name != name,
        i < cs.len() ==> cs[i].name == name,
    ensures
        i < cs.len() ==> spec_config_index(cs, name) == i,
        i == cs.len() ==> spec_config_index(cs, name) == -1,
    decreases cs.len(),
{
    if cs.len() > 0 {
        if cs[0].name == name {
        } else {
            assert(i > 0);
            assert(forall|j: int| 0 <= j < cs.skip(1).len() ==> cs.skip(1)[j] == cs[j + 1]);
            lemma_config_index_from(cs.skip(1), name, i - 1);
        }
    }
}

/// Committing a field twice in a row is the same as committing it once, as
/// long as the field is not the template or environment field — those are
/// handled by their own cases.
proof fn lemma_save_field_twice_fields(s: StateView)
    ensures
        spec_save_field(spec_save_field(s)).input_field == s.input_field,
{
}


// ---------- the configure-arguments screen ----------

/// Launching from the configure screen: a missing required argument aborts
/// with its name — the screen stays, nothing is spawned, the registry is
/// untouched; otherwise the spawn of the planned session command is
/// requested and its outcome awaited.
pub open spec fn launch_attempt_step(
    s: StateView,
    c: McpConfigView,
    t: StateView,
    eff: Seq<EffectView>,
) -> bool {
    match crate::resolver::spec_build_command_tokens(c) {
        Err(name) => {
            t == (StateView { error_message: Some(msg_missing(name)), ..s }) && eff
                == Seq::<EffectView>::empty()
        },
        Ok(_) => {
            let plan = crate::launcher::spec_launch_plan(c);
            t == (StateView {
                pending_launch: Some(PendingLaunchView { config: c, plan }),
                ..s
            }) && eff == seq![EffectView::SpawnSession(plan.shell_command)]
        },
    }
}

/// The configure-arguments screen's answers to one key event, on the scratch
/// configuration `c` the screen carries.
pub open spec fn configure_args_step(
    s: StateView,
    c: McpConfigView,
    k: KeyEvent,
    t: StateView,
    render: bool,
    eff: Seq<EffectView>,
) -> bool {
    let idx = s.editing_arg_index;
    if k.key == Key::Char('d') && k.ctrl && 0 <= idx < c.dynamic_args.len()
        && c.dynamic_args[idx].value_type is Directory {
        let name = c.dynamic_args[idx].name;
        let start = match assoc_get(c.arg_values, name) {
            Some(v) => v,
            None => match c.working_dir {
                Some(w) => w,
                None => s.home_dir,
            },
        };
        t == (StateView {
            screen: ScreenView::BrowseDirectory {
                return_field: InputField::WorkingDir,
                return_arg: Some(name),
                current_path: start,
                entries: seq![".."@],
                selected_index: 0,
            },
            ..s
        }) && render && eff == seq![EffectView::ReadDir(start)]
    } else if k.plain() && k.key == Key::Enter {
        launch_attempt_step(s, c, t, eff) && render
    } else if k.plain() && k.key == Key::Up {
        if idx > 0 {
            t == (StateView {
                editing_arg_index: idx - 1,
                input_buffer: spec_arg_buffer(c, idx - 1, s.input_buffer),
                ..s
            }) && render && eff == Seq::<EffectView>::empty()
        } else {
            t == s && render && eff == Seq::<EffectView>::empty()
        }
    } else if k.plain() && k.key == Key::Down {
        let max = if c.dynamic_args.len() > 0 {
            c.dynamic_args.len() - 1
        } else {
            0
        };
        if idx < max {
            t == (StateView {
                editing_arg_index: idx + 1,
                input_buffer: spec_arg_buffer(c, idx + 1, s.input_buffer),
                ..s
            }) && render && eff == Seq::<EffectView>::empty()
        } else {
            t == s && render && eff == Seq::<EffectView>::empty()
        }
    } else if k.plain() && (k.key matches Key::Char(_)) {
        let b = s.input_buffer.push(k.key->Char_0);
        t == (StateView {
            input_buffer: b,
            screen: ScreenView::ConfigureArgs(spec_write_arg(c, idx, b)),
            ..s
        }) && render && eff == Seq::<EffectView>::empty()
    } else if k.plain() && k.key == Key::Backspace {
        let b = if s.input_buffer.len() > 0 {
            s.input_buffer.drop_last()
        } else {
            s.input_buffer
        };
        t == (StateView {
            input_buffer: b,
            screen: ScreenView::ConfigureArgs(spec_write_arg(c, idx, b)),
            ..s
        }) && render && eff == Seq::<EffectView>::empty()
    } else if k.plain() && k.key == Key::Tab {
        let max = if c.dynamic_args.len() > 0 {
            c.dynamic_args.len() - 1
        } else {
            0
        };
        if c.dynamic_args.len() > 0 && idx < max {
            t == (StateView {
                editing_arg_index: idx + 1,
                input_buffer: spec_arg_buffer(c, idx + 1, s.input_buffer),
                ..s
            }) && render && eff == Seq::<EffectView>::empty()
        } else {
            t == s && render && eff == Seq::<EffectView>::empty()
        }
    } else if k.plain() && k.key == Key::Esc {
        t == (StateView { screen: ScreenView::LaunchMcp, ..s }) && render && eff
            == Seq::<EffectView>::empty()
    } else {
        t == s && !render && eff == Seq::<EffectView>::empty()
    }
}

/// The scratch configuration with the typed text written live into the
/// dynamic argument at a position; outside the range nothing changes.
pub open spec fn spec_write_arg(c: McpConfigView, idx: int, b: Seq<char>) -> McpConfigView {
    if 0 <= idx < c.dynamic_args.len() {
        McpConfigView {
            arg_values: assoc_insert(c.arg_values, c.dynamic_args[idx].name, b),
            ..c
        }
    } else {
        c
    }
}

impl State {
    /// Try to launch the given configuration: build its plan, or report the
    /// first missing required argument and leave everything else untouched.
    pub fn attempt_launch(&mut self, config: McpConfig) -> (eff: Vec<Effect>)
        requires
            state_wf(old(self)@),
            config_wf(config@),
        ensures
            launch_attempt_step(old(self)@, config@, final(self)@, eff.deep_view()),
            state_wf(final(self)@),
    {
        let ghost cv: McpConfigView = config@;
        let mut eff: Vec<Effect> = Vec::new();
        proof {
            assert(eff.deep_view() =~= Seq::<EffectView>::empty());
        }
        match crate::launcher::prepare_launch(&config) {
            Ok(plan) => {
                eff.push(Effect::SpawnSession(plan.shell_command.clone()));
                self.pending_launch = Some(PendingLaunch { config, plan });
                proof {
                    assert(eff.deep_view() =~= seq![
                        EffectView::SpawnSession(
                            crate::launcher::spec_launch_plan(cv).shell_command,
                        ),
                    ]);
                    assert(final(self)@ =~= (StateView {
                        pending_launch: Some(
                            PendingLaunchView {
                                config: cv,
                                plan: crate::launcher::spec_launch_plan(cv),
                            },
                        ),
                        ..old(self)@
                    }));
                }
            },
            Err(e) => {
                let mut err = "Required argument '".to_owned();
                err.append(e.name.as_str());
                err.append("' is missing");
                self.error_message = Some(err);
                proof {
                    assert(final(self)@ =~= (StateView {
                        error_message: Some(msg_missing(e.name@)),
                        ..old(self)@
                    }));
                }
            },
        }
        eff
    }

    /// Answer one key event on the configure-arguments screen; does nothing
    /// unless that screen is live.
    pub fn handle_configure_args_key(&mut self, k: KeyEvent) -> (r: (bool, Vec<Effect>))
        requires
            state_wf(old(self)@),
        ensures
            old(self)@.screen matches ScreenView::ConfigureArgs(c) ==> configure_args_step(
                old(self)@,
                c,
                k,
                final(self)@,
                r.0,
                r.1.deep_view(),
            ),
            !(old(self)@.screen is ConfigureArgs) ==> final(self)@ == old(self)@ && !r.0
                && r.1.deep_view() == Seq::<EffectView>::empty(),
            state_wf(final(self)@),
    {
        let plain = k.is_plain();
        let mut eff: Vec<Effect> = Vec::new();
        proof {
            assert(eff.deep_view() =~= Seq::<EffectView>::empty());
        }
        let config = match &self.screen {
            Screen::ConfigureArgs(c) => c.duplicate(),
            _ => {
                return (false, eff);
            },
        };
        if k.ctrl && matches!(k.key, Key::Char('d')) && self.editing_arg_index
            < config.dynamic_args.len() && matches!(
            config.dynamic_args[self.editing_arg_index].value_type,
            crate::config::ArgType::Directory,
        ) {
            let arg_name = config.dynamic_args[self.editing_arg_index].name.clone();
            let start = match config.arg_values.get(arg_name.as_str()) {
                Some(v) => v,
                None => match &config.working_dir {
                    Some(w) => w.clone(),
                    None => self.home_dir.clone(),
                },
            };
            let mut entries: Vec<String> = Vec::new();
            entries.push("..".to_owned());
            eff.push(Effect::ReadDir(start.clone()));
            self.screen = Screen::BrowseDirectory {
                return_field: InputField::WorkingDir,
                return_arg: Some(arg_name),
                current_path: start,
                entries,
                selected_index: 0,
            };
            proof {
                let c = old(self)@.screen->ConfigureArgs_0;
                let name = c.dynamic_args[old(self)@.editing_arg_index].name;
                let startv = match assoc_get(c.arg_values, name) {
                    Some(v) => v,
                    None => match c.working_dir {
                        Some(w) => w,
                        None => old(self)@.home_dir,
                    },
                };
                assert(eff.deep_view() =~= seq![EffectView::ReadDir(startv)]);
                assert(final(self)@ =~= (StateView {
                    screen: ScreenView::BrowseDirectory {
                        return_field: InputField::WorkingDir,
                        return_arg: Some(name),
                        current_path: startv,
                        entries: seq![".."@],
                        selected_index: 0,
                    },
                    ..old(self)@
                }));
            }
            return (true, eff);
        }
        match k.key {
            Key::Enter => {
                if plain {
                    let eff2 = self.attempt_launch(config);
                    (true, eff2)
                } else {
                    (false, eff)
                }
            },
            Key::Up => {
                if plain {
                    if self.editing_arg_index > 0 {
                        self.editing_arg_index = self.editing_arg_index - 1;
                        self.load_arg_value_to_buffer();
                    }
                    proof {
                        assert(final(self)@ =~= (StateView {
                            editing_arg_index: final(self)@.editing_arg_index,
                            input_buffer: final(self)@.input_buffer,
                            ..old(self)@
                        }));
                    }
                    (true, eff)
                } else {
                    (false, eff)
                }
            },
            Key::Down => {
                if plain {
                    let count = config.dynamic_args.len();
                    let max = if count > 0 {
                        count - 1
                    } else {
                        0
                    };
                    if self.editing_arg_index < max {
                        self.editing_arg_index = self.editing_arg_index + 1;
                        self.load_arg_value_to_buffer();
                    }
                    proof {
                        assert(final(self)@ =~= (StateView {
                            editing_arg_index: final(self)@.editing_arg_index,
                            input_buffer: final(self)@.input_buffer,
                            ..old(self)@
                        }));
                    }
                    (true, eff)
                } else {
                    (false, eff)
                }
            },
            Key::Char(ch) => {
                if plain {
                    crate::text::push_char(&mut self.input_buffer, ch);
                    proof {
                        assert(self@.input_buffer =~= old(self)@.input_buffer.push(ch));
                    }
                    self.write_current_arg(config);
                    proof {
                        let c = old(self)@.screen->ConfigureArgs_0;
                        let b = old(self)@.input_buffer.push(ch);
                        assert(final(self)@ =~= (StateView {
                            input_buffer: b,
                            screen: ScreenView::ConfigureArgs(
                                spec_write_arg(c, old(self)@.editing_arg_index, b),
                            ),
                            ..old(self)@
                        }));
                    }
                    (true, eff)
                } else {
                    (false, eff)
                }
            },
            Key::Backspace => {
                if plain {
                    crate::text::pop_char(&mut self.input_buffer);
                    self.write_current_arg(config);
                    proof {
                        let c = old(self)@.screen->ConfigureArgs_0;
                        let b = if old(self)@.input_buffer.len() > 0 {
                            old(self)@.input_buffer.drop_last()
                        } else {
                            old(self)@.input_buffer
                        };
                        assert(final(self)@ =~= (StateView {
                            input_buffer: b,
                            screen: ScreenView::ConfigureArgs(
                                spec_write_arg(c, old(self)@.editing_arg_index, b),
                            ),
                            ..old(self)@
                        }));
                    }
                    (true, eff)
                } else {
                    (false, eff)
                }
            },
            Key::Tab => {
                if plain {
                    let count = config.dynamic_args.len();
                    if count > 0 && self.editing_arg_index < count - 1 {
                        self.editing_arg_index = self.editing_arg_index + 1;
                        self.load_arg_value_to_buffer();
                    }
                    proof {
                        assert(final(self)@ =~= (StateView {
                            editing_arg_index: final(self)@.editing_arg_index,
                            input_buffer: final(self)@.input_buffer,
                            ..old(self)@
                        }));
                    }
                    (true, eff)
                } else {
                    (false, eff)
                }
            },
            Key::Esc => {
                if plain {
                    self.screen = Screen::LaunchMcp;
                    proof {
                        assert(final(self)@ =~= (StateView {
                            screen: ScreenView::LaunchMcp,
                            ..old(self)@
                        }));
                    }
                    (true, eff)
                } else {
                    (false, eff)
                }
            },
        }
    }

    /// Write the input buffer into the dynamic argument being edited, live
    /// on the scratch configuration the configure screen carries.
    fn write_current_arg(&mut self, config: McpConfig)
        requires
            config_wf(config@),
        ensures
            final(self)@ == (StateView {
                screen: ScreenView::ConfigureArgs(
                    spec_write_arg(config@, old(self)@.editing_arg_index, old(self)@.input_buffer),
                ),
                ..old(self)@
            }),
            config_wf(spec_write_arg(config@, old(self)@.editing_arg_index, old(self)@.input_buffer)),
    {
        let ghost cv: McpConfigView = config@;
        let mut updated = config;
        if self.editing_arg_index < updated.dynamic_args.len() {
            let name = updated.dynamic_args[self.editing_arg_index].name.clone();
            proof {
                crate::strmap::lemma_assoc_insert_sorted(
                    updated@.arg_values,
                    name@,
                    self@.input_buffer,
                );
            }
            let text = self.input_buffer.clone();
            updated.arg_values.insert(name, text);
            proof {
                assert(updated@ =~= spec_write_arg(
                    cv,
                    old(self)@.editing_arg_index,
                    old(self)@.input_buffer,
                ));
            }
        }
        self.screen = Screen::ConfigureArgs(updated);
        proof {
            assert(final(self)@ =~= (StateView {
                screen: ScreenView::ConfigureArgs(
                    spec_write_arg(cv, old(self)@.editing_arg_index, old(self)@.input_buffer),
                ),
                ..old(self)@
            }));
        }
    }
}

// ---------- the directory-browsing screen ----------

/// The browse screen's answers to one key event, on the browse fields the
/// screen carries.
pub open spec fn browse_step(
    s: StateView,
    rf: InputField,
    ra: Option<Seq<char>>,
    path: Seq<char>,
    entries: Seq<Seq<char>>,
    sel: int,
    k: KeyEvent,
    t: StateView,
    render: bool,
    eff: Seq<EffectView>,
) -> bool {
    if k.plain() && k.key == Key::Up {
        t == (StateView {
            screen: ScreenView::BrowseDirectory {
                return_field: rf,
                return_arg: ra,
                current_path: path,
                entries,
                selected_index: if sel > 0 {
                    sel - 1
                } else {
                    sel
                },
            },
            ..s
        }) && render && eff == Seq::<EffectView>::empty()
    } else if k.plain() && k.key == Key::Down {
        let max = if entries.len() > 0 {
            entries.len() - 1
        } else {
            0
        };
        t == (StateView {
            screen: ScreenView::BrowseDirectory {
                return_field: rf,
                return_arg: ra,
                current_path: path,
                entries,
                selected_index: if sel < max {
                    sel + 1
                } else {
                    sel
                },
            },
            ..s
        }) && render && eff == Seq::<EffectView>::empty()
    } else if k.plain() && k.key == Key::Enter {
        if 0 <= sel < entries.len() {
            if entries[sel] == ".."@ {
                // One directory up — the root and the empty path stay as
                // they are — and the listing is refreshed either way.
                let parent = crate::browser::spec_parent_path(path);
                t == (StateView {
                    screen: ScreenView::BrowseDirectory {
                        return_field: rf,
                        return_arg: ra,
                        current_path: parent,
                        entries: seq![".."@],
                        selected_index: 0,
                    },
                    ..s
                }) && render && eff == seq![EffectView::ReadDir(parent)]
            } else {
                let descended = path + "/"@ + entries[sel];
                t == (StateView {
                    screen: ScreenView::BrowseDirectory {
                        return_field: rf,
                        return_arg: ra,
                        current_path: descended,
                        entries: seq![".."@],
                        selected_index: 0,
                    },
                    ..s
                }) && render && eff == seq![EffectView::ReadDir(descended)]
            }
        } else {
            t == s && render && eff == Seq::<EffectView>::empty()
        }
    } else if k.plain() && k.key == Key::Char('s') {
        (match ra {
            Some(arg_name) => {
                if s.selected_index < s.configs.len() {
                    let c = s.configs[s.selected_index];
                    let written = McpConfigView {
                        arg_values: assoc_insert(c.arg_values, arg_name, path),
                        ..c
                    };
                    t == (StateView {
                        screen: ScreenView::ConfigureArgs(written),
                        input_buffer: spec_arg_buffer(written, s.editing_arg_index, s.input_buffer),
                        ..s
                    })
                } else {
                    t == s
                }
            },
            None => {
                t == (StateView {
                    screen: if s.editing_config.name.len() == 0 {
                        ScreenView::AddMcp
                    } else {
                        ScreenView::EditMcp(s.editing_config.name)
                    },
                    input_buffer: path,
                    ..s
                })
            },
        }) && render && eff == Seq::<EffectView>::empty()
    } else if k.plain() && k.key == Key::Esc {
        (match ra {
            Some(_) => {
                if s.selected_index < s.configs.len() {
                    t == (StateView {
                        screen: ScreenView::ConfigureArgs(s.configs[s.selected_index]),
                        ..s
                    })
                } else {
                    t == s
                }
            },
            None => {
                t == (StateView {
                    screen: if s.editing_config.name.len() == 0 {
                        ScreenView::AddMcp
                    } else {
                        ScreenView::EditMcp(s.editing_config.name)
                    },
                    ..s
                })
            },
        }) && render && eff == Seq::<EffectView>::empty()
    } else {
        t == s && !render && eff == Seq::<EffectView>::empty()
    }
}

impl State {
    /// Answer one key event on the directory-browsing screen; does nothing
    /// unless that screen is live.
    pub fn handle_browse_directory_key(&mut self, k: KeyEvent) -> (r: (bool, Vec<Effect>))
        requires
            state_wf(old(self)@),
        ensures
            (old(self)@.screen matches ScreenView::BrowseDirectory {
                return_field,
                return_arg,
                current_path,
                entries,
                selected_index,
            } ==> browse_step(
                old(self)@,
                return_field,
                return_arg,
                current_path,
                entries,
                selected_index,
                k,
                final(self)@,
                r.0,
                r.1.deep_view(),
            )),
            !(old(self)@.screen is BrowseDirectory) ==> final(self)@ == old(self)@ && !r.0
                && r.1.deep_view() == Seq::<EffectView>::empty(),
            state_wf(final(self)@),
    {
        let plain = k.is_plain();
        let mut eff: Vec<Effect> = Vec::new();
        proof {
            assert(eff.deep_view() =~= Seq::<EffectView>::empty());
        }
        let (rf, ra, path, entries, sel) = match &self.screen {
            Screen::BrowseDirectory {
                return_field,
                return_arg,
                current_path,
                entries,
                selected_index,
            } => (
                *return_field,
                return_arg.clone(),
                current_path.clone(),
                crate::config::duplicate_strings(entries),
                *selected_index,
            ),
            _ => {
                return (false, eff);
            },
        };
        let ghost entv: Seq<Seq<char>> = (old(self)@.screen)->BrowseDirectory_entries;
        proof {
            assert(Seq::new(entries@.len(), |i: int| entries@[i]@) =~= entv);
        }
        match k.key {
            Key::Up => {
                if plain {
                    let ns = if sel > 0 {
                        sel - 1
                    } else {
                        sel
                    };
                    self.screen = Screen::BrowseDirectory {
                        return_field: rf,
                        return_arg: ra,
                        current_path: path,
                        entries,
                        selected_index: ns,
                    };
                    proof {
                        assert(final(self)@ =~= (StateView {
                            screen: final(self)@.screen,
                            ..old(self)@
                        }));
                        assert(final(self)@.screen =~= (ScreenView::BrowseDirectory {
                            return_field: rf,
                            return_arg: (old(self)@.screen)->BrowseDirectory_return_arg,
                            current_path: (old(self)@.screen)->BrowseDirectory_current_path,
                            entries: entv,
                            selected_index: ns as int,
                        }));
                    }
                    (true, eff)
                } else {
                    (false, eff)
                }
            },
            Key::Down => {
                if plain {
                    let count = entries.len();
                    let max = if count > 0 {
                        count - 1
                    } else {
                        0
                    };
                    let ns = if sel < max {
                        sel + 1
                    } else {
                        sel
                    };
                    self.screen = Screen::BrowseDirectory {
                        return_field: rf,
                        return_arg: ra,
                        current_path: path,
                        entries,
                        selected_index: ns,
                    };
                    proof {
                        assert(final(self)@ =~= (StateView {
                            screen: final(self)@.screen,
                            ..old(self)@
                        }));
                        assert(final(self)@.screen =~= (ScreenView::BrowseDirectory {
                            return_field: rf,
                            return_arg: (old(self)@.screen)->BrowseDirectory_return_arg,
                            current_path: (old(self)@.screen)->BrowseDirectory_current_path,
                            entries: entv,
                            selected_index: ns as int,
                        }));
                    }
                    (true, eff)
                } else {
                    (false, eff)
                }
            },
            Key::Enter => {
                if plain {
                    if sel < entries.len() {
                        if crate::browser::is_parent_entry(entries[sel].as_str()) {
                            let parent = crate::browser::parent_path(path.as_str());
                            eff.push(Effect::ReadDir(parent.clone()));
                            let mut fresh: Vec<String> = Vec::new();
                            fresh.push("..".to_owned());
                            self.screen = Screen::BrowseDirectory {
                                return_field: rf,
                                return_arg: ra,
                                current_path: parent,
                                entries: fresh,
                                selected_index: 0,
                            };
                            proof {
                                let pv = crate::browser::spec_parent_path(
                                    (old(self)@.screen)->BrowseDirectory_current_path,
                                );
                                assert(eff.deep_view() =~= seq![EffectView::ReadDir(pv)]);
                                assert(final(self)@ =~= (StateView {
                                    screen: ScreenView::BrowseDirectory {
                                        return_field: rf,
                                        return_arg: (
                                        old(self)@.screen)->BrowseDirectory_return_arg,
                                        current_path: pv,
                                        entries: seq![".."@],
                                        selected_index: 0,
                                    },
                                    ..old(self)@
                                }));
                            }
                        } else {
                            let descended = crate::browser::child_path(
                                path.as_str(),
                                entries[sel].as_str(),
                            );
                            eff.push(Effect::ReadDir(descended.clone()));
                            let mut fresh: Vec<String> = Vec::new();
                            fresh.push("..".to_owned());
                            self.screen = Screen::BrowseDirectory {
                                return_field: rf,
                                return_arg: ra,
                                current_path: descended,
                                entries: fresh,
                                selected_index: 0,
                            };
                            proof {
                                let pv = (old(self)@.screen)->BrowseDirectory_current_path + "/"@
                                    + entv[sel as int];
                                assert(eff.deep_view() =~= seq![EffectView::ReadDir(pv)]);
                                assert(final(self)@ =~= (StateView {
                                    screen: ScreenView::BrowseDirectory {
                                        return_field: rf,
                                        return_arg: (
                                        old(self)@.screen)->BrowseDirectory_return_arg,
                                        current_path: pv,
                                        entries: seq![".."@],
                                        selected_index: 0,
                                    },
                                    ..old(self)@
                                }));
                            }
                        }
                    }
                    (true, eff)
                } else {
                    (false, eff)
                }
            },
            Key::Char('s') => {
                if plain {
                    match ra {
                        Some(arg_name) => {
                            if self.selected_index < self.configs.len() {
                                let mut written = self.configs[self.selected_index].duplicate();
                                proof {
                                    crate::strmap::lemma_assoc_insert_sorted(
                                        written@.arg_values,
                                        arg_name@,
                                        path@,
                                    );
                                }
                                written.arg_values.insert(arg_name, path);
                                let ghost wv: McpConfigView = written@;
                                self.screen = Screen::ConfigureArgs(written);
                                self.load_arg_value_to_buffer();
                                proof {
                                    let c = old(self)@.configs[old(self)@.selected_index];
                                    let ran = ((
                                    old(self)@.screen)->BrowseDirectory_return_arg)->Some_0;
                                    let pathv = (old(self)@.screen)->BrowseDirectory_current_path;
                                    assert(wv =~= (McpConfigView {
                                        arg_values: assoc_insert(c.arg_values, ran, pathv),
                                        ..c
                                    }));
                                    assert(final(self)@ =~= (StateView {
                                        screen: ScreenView::ConfigureArgs(wv),
                                        input_buffer: spec_arg_buffer(
                                            wv,
                                            old(self)@.editing_arg_index,
                                            old(self)@.input_buffer,
                                        ),
                                        ..old(self)@
                                    }));
                                }
                            }
                        },
                        None => {
                            self.input_buffer = path;
                            if self.editing_config.name.as_str().is_empty() {
                                self.screen = Screen::AddMcp;
                            } else {
                                self.screen = Screen::EditMcp(self.editing_config.name.clone());
                            }
                            proof {
                                assert(final(self)@ =~= (StateView {
                                    screen: final(self)@.screen,
                                    input_buffer: (
                                    old(self)@.screen)->BrowseDirectory_current_path,
                                    ..old(self)@
                                }));
                            }
                        },
                    }
                    (true, eff)
                } else {
                    (false, eff)
                }
            },
            Key::Esc => {
                if plain {
                    match ra {
                        Some(_) => {
                            if self.selected_index < self.configs.len() {
                                let resumed = self.configs[self.selected_index].duplicate();
                                self.screen = Screen::ConfigureArgs(resumed);
                                proof {
                                    assert(final(self)@ =~= (StateView {
                                        screen: ScreenView::ConfigureArgs(
                                            old(self)@.configs[old(self)@.selected_index],
                                        ),
                                        ..old(self)@
                                    }));
                                }
                            }
                        },
                        None => {
                            if self.editing_config.name.as_str().is_empty() {
                                self.screen = Screen::AddMcp;
                            } else {
                                self.screen = Screen::EditMcp(self.editing_config.name.clone());
                            }
                            proof {
                                assert(final(self)@ =~= (StateView {
                                    screen: final(self)@.screen,
                                    ..old(self)@
                                }));
                            }
                        },
                    }
                    (true, eff)
                } else {
                    (false, eff)
                }
            },
            _ => (false, eff),
        }
    }
}

// ---------- launch outcomes, listings and host pushes ----------

/// What the spawn outcome does: on success the awaited launch becomes a
/// running record — inserted under its configuration name, overwriting any
/// prior record — the launch is reported and the running-instances screen
/// opens; on failure only the system's words are reported, the screen and
/// the registry stay. With no launch awaited, nothing happens.
pub open spec fn spawn_result_step(
    s: StateView,
    ok: bool,
    err: Seq<char>,
    started_at: Seq<char>,
    t: StateView,
) -> bool {
    match s.pending_launch {
        None => t == s,
        Some(p) => if ok {
            let inst = crate::config::InstanceView {
                config: p.config,
                session_name: p.plan.session_name,
                status: crate::config::StatusView::Running,
                started_at,
                actual_port: p.plan.actual_port,
            };
            t == (StateView {
                instances: crate::registry::reg_insert(s.instances, inst),
                success_message: Some(msg_launched(p.config.name, p.plan.session_name)),
                screen: ScreenView::CurrentMcps,
                pending_launch: None,
                ..s
            })
        } else {
            t == (StateView {
                error_message: Some(msg_launch_failed(err)),
                pending_launch: None,
                ..s
            })
        },
    }
}

impl State {
    /// Take in the outcome of the spawn that was requested last; `outcome`
    /// carries the system's error words when the spawn failed, and
    /// `started_at` the wall-clock text recorded for a success.
    pub fn handle_spawn_result(&mut self, outcome: Result<(), String>, started_at: String)
        requires
            state_wf(old(self)@),
        ensures
            spawn_result_step(
                old(self)@,
                outcome is Ok,
                match outcome {
                    Err(e) => e@,
                    Ok(_) => Seq::empty(),
                },
                started_at@,
                final(self)@,
            ),
            state_wf(final(self)@),
    {
        let pending = self.pending_launch.take();
        match pending {
            None => {
                proof {
                    assert(final(self)@ =~= old(self)@);
                }
            },
            Some(p) => {
                match outcome {
                    Ok(_) => {
                        let mut message = "Launched MCP: ".to_owned();
                        message.append(p.config.name.as_str());
                        message.append(" in tmux session: ");
                        message.append(p.plan.session_name.as_str());
                        let instance = crate::config::McpInstance {
                            config: p.config,
                            session_name: p.plan.session_name,
                            status: crate::config::McpStatus::Running,
                            started_at,
                            actual_port: p.plan.actual_port,
                        };
                        proof {
                            crate::registry::lemma_reg_insert_sorted(
                                old(self)@.instances,
                                instance@,
                            );
                            lemma_reg_insert_configs_wf(old(self)@.instances, instance@);
                        }
                        self.instances.insert(instance);
                        self.success_message = Some(message);
                        self.screen = Screen::CurrentMcps;
                        proof {
                            let pv = old(self)@.pending_launch->Some_0;
                            let iv = crate::config::InstanceView {
                                config: pv.config,
                                session_name: pv.plan.session_name,
                                status: crate::config::StatusView::Running,
                                started_at: started_at@,
                                actual_port: pv.plan.actual_port,
                            };
                            assert(final(self)@ =~= (StateView {
                                instances: crate::registry::reg_insert(old(self)@.instances, iv),
                                success_message: Some(
                                    msg_launched(pv.config.name, pv.plan.session_name),
                                ),
                                screen: ScreenView::CurrentMcps,
                                pending_launch: None,
                                ..old(self)@
                            }));
                        }
                    },
                    Err(e) => {
                        let mut message = "Failed to launch MCP: ".to_owned();
                        message.append(e.as_str());
                        self.error_message = Some(message);
                        proof {
                            assert(final(self)@ =~= (StateView {
                                error_message: Some(msg_launch_failed(e@)),
                                pending_launch: None,
                                ..old(self)@
                            }));
                        }
                    },
                }
            },
        }
    }

    /// Take in a directory listing for the browse screen: its entries become
    /// the parent entry followed by the subdirectories sorted ascending, and
    /// the selection returns to the top. Off the browse screen nothing
    /// happens. A failed read degrades to an empty listing, never an error.
    pub fn provide_dir_listing(&mut self, subdirs: Vec<String>)
        requires
            state_wf(old(self)@),
        ensures
            old(self)@.screen matches ScreenView::BrowseDirectory {
                return_field,
                return_arg,
                current_path,
                entries,
                selected_index,
            } ==> (final(self)@.screen matches ScreenView::BrowseDirectory {
                return_field: rf2,
                return_arg: ra2,
                current_path: p2,
                entries: e2,
                selected_index: sel2,
            } && rf2 == return_field && ra2 == return_arg && p2 == current_path && sel2 == 0
                && e2.len() == subdirs@.len() + 1 && e2[0] == ".."@ && crate::browser::sorted_le(
                e2.skip(1),
            ) && e2.skip(1).to_multiset() == subdirs.deep_view().to_multiset() && final(self)@
                == (StateView { screen: final(self)@.screen, ..old(self)@ })),
            !(old(self)@.screen is BrowseDirectory) ==> final(self)@ == old(self)@,
            state_wf(final(self)@),
    {
        let (rf, ra, path) = match &self.screen {
            Screen::BrowseDirectory { return_field, return_arg, current_path, .. } => (
                *return_field,
                return_arg.clone(),
                current_path.clone(),
            ),
            _ => {
                return ;
            },
        };
        let ghost sdv: Seq<Seq<char>> = subdirs.deep_view();
        let fresh = crate::browser::browse_entries(subdirs);
        let ghost fv: Seq<Seq<char>> = fresh.deep_view();
        self.screen = Screen::BrowseDirectory {
            return_field: rf,
            return_arg: ra,
            current_path: path,
            entries: fresh,
            selected_index: 0,
        };
        proof {
            assert((final(self)@.screen)->BrowseDirectory_entries =~= fv);
            assert(fv.skip(1).to_multiset() == sdv.to_multiset());
            assert(final(self)@ =~= (StateView { screen: final(self)@.screen, ..old(self)@ }));
        }
    }

    /// Take in the host's tab metadata: tabs named `MCP: <name>` are
    /// correlated with registry records, best-effort; the registry's own
    /// bookkeeping is never overridden, so nothing changes.
    pub fn update_instance_status(&mut self, tabs: &Vec<String>)
        ensures
            final(self)@ == old(self)@,
    {
        let n = tabs.len();
        let mut i: usize = 0;
        while i < n
            invariant
                i <= n,
                n == tabs@.len(),
                self == old(self),
            decreases n - i,
        {
            let tab = &tabs[i];
            if crate::text::starts_with(tab.as_str(), "MCP: ") {
                proof {
                    reveal_strlit("MCP: ");
                }
                let mcp_name = crate::text::strip_prefix_chars(tab.as_str(), 5);
                // The record under this name would carry the tab's pane, but
                // no pane identity reaches this event, so the correlation
                // stays advisory and the registry keeps its own bookkeeping.
                let _present = self.lookup_instance(mcp_name.as_str());
            }
            i += 1;
        }
    }

    /// Whether a record exists under a configuration name.
    pub fn lookup_instance(&self, name: &str) -> (r: bool)
        ensures
            r == crate::registry::reg_contains(self@.instances, name@),
    {
        let n = self.instances.len();
        let mut i: usize = 0;
        proof {
            assert(self@.instances.skip(0) =~= self@.instances);
        }
        while i < n
            invariant
                i <= n,
                n == self@.instances.len(),
                crate::registry::reg_get(self@.instances, name@) == crate::registry::reg_get(
                    self@.instances.skip(i as int),
                    name@,
                ),
            decreases n - i,
        {
            proof {
                assert(self@.instances.skip(i as int)[0] == self@.instances[i as int]);
                assert(self@.instances.skip(i as int).skip(1) =~= self@.instances.skip(i + 1));
            }
            if crate::text::str_eq(self.instances.get_at(i).config.name.as_str(), name) {
                return true;
            }
            i += 1;
        }
        proof {
            assert(self@.instances.skip(n as int) =~= Seq::<crate::config::InstanceView>::empty());
        }
        false
    }
}

/// Inserting a record with a well-formed configuration keeps every record's
/// configuration well formed.
proof fn lemma_reg_insert_configs_wf(
    m: Seq<crate::config::InstanceView>,
    inst: crate::config::InstanceView,
)
    requires
        forall|i: int| 0 <= i < m.len() ==> config_wf((#[trigger] m[i]).config),
        config_wf(inst.config),
    ensures
        forall|i: int|
            0 <= i < crate::registry::reg_insert(m, inst).len() ==> config_wf(
                (#[trigger] crate::registry::reg_insert(m, inst)[i]).config,
            ),
    decreases m.len(),
{
    let r = crate::registry::reg_insert(m, inst);
    if m.len() == 0 {
    } else if m[0].config.name == inst.config.name {
        assert(forall|i: int| 1 <= i < r.len() ==> r[i] == m[i]);
    } else if crate::text::spec_str_lt(inst.config.name, m[0].config.name) {
        assert(forall|i: int| 1 <= i < r.len() ==> r[i] == m[i - 1]);
    } else {
        assert(forall|i: int| 0 <= i < m.skip(1).len() ==> m.skip(1)[i] == m[i + 1]);
        lemma_reg_insert_configs_wf(m.skip(1), inst);
        assert(forall|i: int|
            1 <= i < r.len() ==> r[i] == crate::registry::reg_insert(m.skip(1), inst)[i - 1]);
        assert(r[0] == m[0]);
    }
}

// ---------- construction and loading ----------

/// The two illustrative configurations the stand-in loader seeds: a
/// filesystem server and an agent server.
pub open spec fn spec_example_filesystem() -> McpConfigView {
    McpConfigView {
        name: "File System MCP"@,
        mcp_type: crate::config::McpType::Stdio,
        template: McpTemplate::FileSystem,
        command: "npx"@,
        base_args: seq!["-y"@, "@modelcontextprotocol/server-filesystem"@],
        dynamic_args: seq![
            crate::config::ArgDefView {
                name: "allowed_paths"@,
                flag: ""@,
                value_type: crate::config::ArgType::Directory,
                default: Some("/home"@),
                required: true,
                description: "Allowed filesystem paths"@,
            },
        ],
        arg_values: seq![("allowed_paths"@, "/home"@)],
        env_vars: Seq::empty(),
        working_dir: None,
        activation_script: None,
    }
}

/// The agent example: a web-type server with a defaulted port and a
/// required project directory.
pub open spec fn spec_example_agent() -> McpConfigView {
    McpConfigView {
        name: "Agent MCP"@,
        mcp_type: crate::config::McpType::Http,
        template: McpTemplate::AgentMcp,
        command: "uv"@,
        base_args: seq!["run"@, "-m"@, "agent_mcp.cli"@],
        dynamic_args: seq![
            crate::config::ArgDefView {
                name: "port"@,
                flag: "--port"@,
                value_type: crate::config::ArgType::Port,
                default: Some("8080"@),
                required: true,
                description: "HTTP server port"@,
            },
            crate::config::ArgDefView {
                name: "project_dir"@,
                flag: "--project-dir"@,
                value_type: crate::config::ArgType::Directory,
                default: None,
                required: true,
                description: "Project directory for agent operations"@,
            },
        ],
        arg_values: seq![("port"@, "8080"@)],
        env_vars: Seq::empty(),
        working_dir: Some("/home/alejandro/Code/MCP/agent-mcp"@),
        activation_script: None,
    }
}

impl State {
    /// A fresh manager: the main menu, no configurations, no instances.
    /// Browsing falls back to `home_dir` when nothing better is known.
    pub fn new(home_dir: String) -> (r: State)
        ensures
            r@ == (StateView {
                screen: ScreenView::MainMenu,
                configs: Seq::empty(),
                instances: Seq::empty(),
                selected_index: 0,
                input_buffer: Seq::empty(),
                input_field: InputField::Name,
                editing_config: spec_default_config(),
                editing_arg_index: 0,
                rows: 0,
                cols: 0,
                error_message: None,
                success_message: None,
                home_dir: home_dir@,
                pending_launch: None,
            }),
            state_wf(r@),
    {
        let r = State {
            screen: Screen::MainMenu,
            configs: Vec::new(),
            instances: InstanceRegistry::new(),
            selected_index: 0,
            input_buffer: String::new(),
            input_field: InputField::Name,
            editing_config: McpConfig::default(),
            editing_arg_index: 0,
            rows: 0,
            cols: 0,
            error_message: None,
            success_message: None,
            home_dir,
            pending_launch: None,
        };
        proof {
            assert(r@.configs =~= Seq::<McpConfigView>::empty());
            assert(r@ =~= (StateView {
                screen: ScreenView::MainMenu,
                configs: Seq::empty(),
                instances: Seq::empty(),
                selected_index: 0,
                input_buffer: Seq::empty(),
                input_field: InputField::Name,
                editing_config: spec_default_config(),
                editing_arg_index: 0,
                rows: 0,
                cols: 0,
                error_message: None,
                success_message: None,
                home_dir: r@.home_dir,
                pending_launch: None,
            }));
        }
        r
    }

    /// Seed the stand-in configuration store: two illustrative
    /// configurations; real persistence is an outside collaborator still to
    /// come.
    pub fn load_configs(&mut self)
        ensures
            final(self)@ == (StateView {
                configs: seq![spec_example_filesystem(), spec_example_agent()],
                ..old(self)@
            }),
            state_wf(old(self)@) ==> state_wf(final(self)@),
    {
        let mut fs_base: Vec<String> = Vec::new();
        fs_base.push("-y".to_owned());
        fs_base.push("@modelcontextprotocol/server-filesystem".to_owned());
        let mut fs_args: Vec<crate::config::ArgDefinition> = Vec::new();
        fs_args.push(
            crate::config::ArgDefinition {
                name: "allowed_paths".to_owned(),
                flag: "".to_owned(),
                value_type: crate::config::ArgType::Directory,
                default: Some("/home".to_owned()),
                required: true,
                description: "Allowed filesystem paths".to_owned(),
            },
        );
        let mut fs_values = StrMap::new();
        fs_values.insert("allowed_paths".to_owned(), "/home".to_owned());
        let fs_config = McpConfig {
            name: "File System MCP".to_owned(),
            mcp_type: crate::config::McpType::Stdio,
            template: McpTemplate::FileSystem,
            command: "npx".to_owned(),
            base_args: fs_base,
            dynamic_args: fs_args,
            arg_values: fs_values,
            env_vars: StrMap::new(),
            working_dir: None,
            activation_script: None,
        };
        proof {
            assert(fs_config@.base_args =~= spec_example_filesystem().base_args);
            assert(fs_config@.dynamic_args =~= spec_example_filesystem().dynamic_args);
            assert(fs_config@.arg_values =~= spec_example_filesystem().arg_values);
            assert(fs_config@.env_vars =~= spec_example_filesystem().env_vars);
            assert(fs_config@ =~= spec_example_filesystem());
        }
        let mut ag_base: Vec<String> = Vec::new();
        ag_base.push("run".to_owned());
        ag_base.push("-m".to_owned());
        ag_base.push("agent_mcp.cli".to_owned());
        let mut ag_args: Vec<crate::config::ArgDefinition> = Vec::new();
        ag_args.push(
            crate::config::ArgDefinition {
                name: "port".to_owned(),
                flag: "--port".to_owned(),
                value_type: crate::config::ArgType::Port,
                default: Some("8080".to_owned()),
                required: true,
                description: "HTTP server port".to_owned(),
            },
        );
        ag_args.push(
            crate::config::ArgDefinition {
                name: "project_dir".to_owned(),
                flag: "--project-dir".to_owned(),
                value_type: crate::config::ArgType::Directory,
                default: None,
                required: true,
                description: "Project directory for agent operations".to_owned(),
            },
        );
        let mut ag_values = StrMap::new();
        ag_values.insert("port".to_owned(), "8080".to_owned());
        let agent_config = McpConfig {
            name: "Agent MCP".to_owned(),
            mcp_type: crate::config::McpType::Http,
            template: McpTemplate::AgentMcp,
            command: "uv".to_owned(),
            base_args: ag_base,
            dynamic_args: ag_args,
            arg_values: ag_values,
            env_vars: StrMap::new(),
            working_dir: Some("/home/alejandro/Code/MCP/agent-mcp".to_owned()),
            activation_script: None,
        };
        proof {
            assert(agent_config@.base_args =~= spec_example_agent().base_args);
            assert(agent_config@.dynamic_args =~= spec_example_agent().dynamic_args);
            assert(agent_config@.arg_values =~= spec_example_agent().arg_values);
            assert(agent_config@.env_vars =~= spec_example_agent().env_vars);
            assert(agent_config@ =~= spec_example_agent());
        }
        let mut seeded: Vec<McpConfig> = Vec::new();
        seeded.push(fs_config);
        seeded.push(agent_config);
        self.configs = seeded;
        proof {
            assert(final(self)@.configs =~= seq![
                spec_example_filesystem(),
                spec_example_agent(),
            ]);
            assert(final(self)@ =~= (StateView {
                configs: seq![spec_example_filesystem(), spec_example_agent()],
                ..old(self)@
            }));
            reveal_strlit("port");
            reveal_strlit("project_dir");
            assert("port"@.len() != "project_dir"@.len());
            assert(config_wf(spec_example_filesystem()));
            assert(config_wf(spec_example_agent()));
        }
    }

    /// Load at start-up: seed the stand-in store, then open the screen the
    /// host's configuration asks for — the main menu unless it names
    /// another.
    pub fn load(&mut self, initial_screen: Option<String>)
        ensures
            final(self)@ == (StateView {
                configs: seq![spec_example_filesystem(), spec_example_agent()],
                screen: match initial_screen {
                    Some(w) => if w@ == "current"@ {
                        ScreenView::CurrentMcps
                    } else if w@ == "launch"@ {
                        ScreenView::LaunchMcp
                    } else if w@ == "add"@ {
                        ScreenView::AddMcp
                    } else {
                        ScreenView::MainMenu
                    },
                    None => old(self)@.screen,
                },
                ..old(self)@
            }),
            state_wf(old(self)@) ==> state_wf(final(self)@),
    {
        self.load_configs();
        match &initial_screen {
            Some(word) => {
                if crate::text::str_eq(word.as_str(), "current") {
                    self.screen = Screen::CurrentMcps;
                } else if crate::text::str_eq(word.as_str(), "launch") {
                    self.screen = Screen::LaunchMcp;
                } else if crate::text::str_eq(word.as_str(), "add") {
                    self.screen = Screen::AddMcp;
                } else {
                    self.screen = Screen::MainMenu;
                }
            },
            None => {},
        }
        proof {
            assert(final(self)@ =~= (StateView {
                configs: final(self)@.configs,
                screen: final(self)@.screen,
                ..old(self)@
            }));
            if state_wf(old(self)@) {
                let mid = StateView {
                    configs: seq![spec_example_filesystem(), spec_example_agent()],
                    ..old(self)@
                };
                assert(state_wf(mid));
                assert(final(self)@.configs == mid.configs);
                assert(forall|i: int|
                    0 <= i < final(self)@.configs.len() ==> config_wf(
                        #[trigger] final(self)@.configs[i],
                    ));
                assert(state_wf(final(self)@));
            }
        }
    }

    /// Answer one key event: drop the one-shot messages, then let the live
    /// screen's handler decide.
    pub fn handle_key(&mut self, k: KeyEvent) -> (r: (bool, Vec<Effect>))
        requires
            state_wf(old(self)@),
        ensures
            ({
                let s = spec_clear_messages(old(self)@);
                match s.screen {
                    ScreenView::MainMenu => main_menu_step(s, k, final(self)@, r.0, r.1.deep_view()),
                    ScreenView::CurrentMcps => current_mcps_step(
                        s,
                        k,
                        final(self)@,
                        r.0,
                        r.1.deep_view(),
                    ),
                    ScreenView::LaunchMcp => launch_mcp_step(
                        s,
                        k,
                        final(self)@,
                        r.0,
                        r.1.deep_view(),
                    ),
                    ScreenView::AddMcp => add_edit_step(s, k, final(self)@, r.0, r.1.deep_view()),
                    ScreenView::EditMcp(_) => add_edit_step(
                        s,
                        k,
                        final(self)@,
                        r.0,
                        r.1.deep_view(),
                    ),
                    ScreenView::ConfigureArgs(c) => configure_args_step(
                        s,
                        c,
                        k,
                        final(self)@,
                        r.0,
                        r.1.deep_view(),
                    ),
                    ScreenView::BrowseDirectory {
                        return_field,
                        return_arg,
                        current_path,
                        entries,
                        selected_index,
                    } => browse_step(
                        s,
                        return_field,
                        return_arg,
                        current_path,
                        entries,
                        selected_index,
                        k,
                        final(self)@,
                        r.0,
                        r.1.deep_view(),
                    ),
                }
            }),
            state_wf(final(self)@),
    {
        self.error_message = None;
        self.success_message = None;
        proof {
            assert(self@ =~= spec_clear_messages(old(self)@));
        }
        match &self.screen {
            Screen::MainMenu => self.handle_main_menu_key(k),
            Screen::CurrentMcps => self.handle_current_mcps_key(k),
            Screen::LaunchMcp => self.handle_launch_mcp_key(k),
            Screen::AddMcp => self.handle_add_edit_mcp_key(k),
            Screen::EditMcp(_) => self.handle_add_edit_mcp_key(k),
            Screen::ConfigureArgs(_) => self.handle_configure_args_key(k),
            Screen::BrowseDirectory { .. } => self.handle_browse_directory_key(k),
        }
    }
}

} // verus!
