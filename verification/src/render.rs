//! The render model: what text each screen presents, one line per entry.
//! Positioning, colour and escape sequences are the host surface's concern;
//! this module only decides the text.

use vstd::prelude::*;
use vstd::string::StringExecFns;
use crate::config::{InstanceView, McpConfigView, McpInstance, McpStatus, StatusView};
use crate::controller::{InputField, Screen, ScreenView, State, StateView, spec_arg_buffer};
use crate::launcher::{join_strings, spec_join};
use crate::template::{spec_template_label, spec_type_label, template_label, type_label};
use crate::text::{pad_left, pad_right, repeat_char, spec_pad_left, spec_pad_right, spec_repeat,
    spec_truncate, truncate_chars, u64_to_dec, dec_str};

verus! {

/// The centred banner over every screen: the title line, a rule of `=` as
/// wide as the surface, and a blank line.
pub open spec fn spec_header_lines(cols: nat) -> Seq<Seq<char>> {
    let title = "=== MCP Manager ==="@;
    let pad = (if cols >= title.len() {
        cols - title.len()
    } else {
        0
    }) as nat / 2;
    seq![spec_repeat(' ', pad) + title, spec_repeat('=', cols), Seq::empty()]
}

/// Render the header.
pub fn render_header(cols: usize) -> (r: Vec<String>)
    ensures
        r.deep_view() == spec_header_lines(cols as nat),
{
    let title = "=== MCP Manager ===";
    let tlen = title.unicode_len();
    let pad = if cols >= tlen {
        (cols - tlen) / 2
    } else {
        0
    };
    let mut first = repeat_char(' ', pad);
    first.append(title);
    let rule = repeat_char('=', cols);
    let mut out: Vec<String> = Vec::new();
    out.push(first);
    out.push(rule);
    out.push(String::new());
    proof {
        assert(out.deep_view() =~= spec_header_lines(cols as nat));
    }
    out
}

/// The main menu's lines: each option as `[key] title - description`.
pub open spec fn spec_main_menu_lines() -> Seq<Seq<char>> {
    seq![
        "[1] Current MCPs - View and manage running MCP servers"@,
        "[2] Launch MCP - Start a configured MCP server"@,
        "[3] Add MCP - Configure a new MCP server"@,
        "[q] Quit - Close the MCP Manager"@,
    ]
}

/// Render the main menu.
pub fn render_main_menu() -> (r: Vec<String>)
    ensures
        r.deep_view() == spec_main_menu_lines(),
{
    let mut out: Vec<String> = Vec::new();
    out.push("[1] Current MCPs - View and manage running MCP servers".to_owned());
    out.push("[2] Launch MCP - Start a configured MCP server".to_owned());
    out.push("[3] Add MCP - Configure a new MCP server".to_owned());
    out.push("[q] Quit - Close the MCP Manager".to_owned());
    proof {
        assert(out.deep_view() =~= spec_main_menu_lines());
    }
    out
}

/// The word shown for an instance's status.
pub open spec fn spec_status_label(s: StatusView) -> Seq<char> {
    match s {
        StatusView::Running => "Running"@,
        StatusView::Stopped => "Stopped"@,
        StatusView::Failed(_) => "Failed"@,
    }
}

/// The word shown for an instance's status.
pub fn status_label(s: &McpStatus) -> (r: String)
    ensures
        r@ == spec_status_label(s@),
{
    match s {
        McpStatus::Running => "Running".to_owned(),
        McpStatus::Stopped => "Stopped".to_owned(),
        McpStatus::Failed(_) => "Failed".to_owned(),
    }
}

/// The text shown in the port column: the number, or a dash.
pub open spec fn spec_port_label(p: Option<u16>) -> Seq<char> {
    match p {
        Some(port) => dec_str(port as nat),
        None => "-"@,
    }
}

/// One table row of the running-instances screen: the selection marker,
/// then name, type, status, port and start time in padded columns.
pub open spec fn spec_instance_line(inst: InstanceView, selected: bool) -> Seq<char> {
    let prefix = if selected {
        "> "@
    } else {
        "  "@
    };
    prefix + spec_pad_right(spec_truncate(inst.config.name, 25), 25) + " "@ + spec_pad_right(
        spec_type_label(inst.config.mcp_type),
        10,
    ) + " "@ + spec_pad_right(spec_status_label(inst.status), 10) + " "@ + spec_pad_right(
        spec_port_label(inst.actual_port),
        8,
    ) + " "@ + spec_pad_right(inst.started_at, 20)
}

/// The running-instances screen's lines: an empty-state message when
/// nothing runs; otherwise the column headers and one row per record, in
/// registry order, with the selected row marked.
pub open spec fn spec_current_mcps_lines(instances: Seq<InstanceView>, selected: int) -> Seq<
    Seq<char>,
> {
    if instances.len() == 0 {
        seq![
            "Current MCP Servers"@,
            Seq::empty(),
            "No MCP servers are currently running"@,
        ]
    } else {
        seq!["Current MCP Servers"@, Seq::empty(), spec_instance_header()] + Seq::new(
            instances.len(),
            |i: int| spec_instance_line(instances[i], i == selected),
        ) + seq![
            Seq::<char>::empty(),
            "Enter: Open terminal | s: Stop | r: Restart | b: Back"@,
        ]
    }
}

/// The column headers of the instance table.
pub open spec fn spec_instance_header() -> Seq<char> {
    spec_pad_right("Name"@, 25) + " "@ + spec_pad_right("Type"@, 10) + " "@ + spec_pad_right(
        "Status"@,
        10,
    ) + " "@ + spec_pad_right("Port"@, 8) + " "@ + spec_pad_right("Started"@, 20)
}

fn instance_line(inst: &McpInstance, selected: bool) -> (r: String)
    ensures
        r@ == spec_instance_line(inst@, selected),
{
    let mut line = if selected {
        "> ".to_owned()
    } else {
        "  ".to_owned()
    };
    let name = truncate_chars(inst.config.name.as_str(), 25);
    let padded_name = pad_right(name.as_str(), 25);
    line.append(padded_name.as_str());
    line.append(" ");
    let ty = type_label(inst.config.mcp_type);
    let padded_ty = pad_right(ty.as_str(), 10);
    line.append(padded_ty.as_str());
    line.append(" ");
    let st = status_label(&inst.status);
    let padded_st = pad_right(st.as_str(), 10);
    line.append(padded_st.as_str());
    line.append(" ");
    let port = match inst.actual_port {
        Some(p) => u64_to_dec(p as u64),
        None => "-".to_owned(),
    };
    let padded_port = pad_right(port.as_str(), 8);
    line.append(padded_port.as_str());
    line.append(" ");
    let padded_start = pad_right(inst.started_at.as_str(), 20);
    line.append(padded_start.as_str());
    line
}

impl State {
    /// Render the running-instances screen.
    pub fn render_current_mcps(&self) -> (r: Vec<String>)
        ensures
            r.deep_view() == spec_current_mcps_lines(self@.instances, self@.selected_index),
    {
        let mut out: Vec<String> = Vec::new();
        out.push("Current MCP Servers".to_owned());
        out.push(String::new());
        let n = self.instances.len();
        if n == 0 {
            out.push("No MCP servers are currently running".to_owned());
            proof {
                assert(out.deep_view() =~= spec_current_mcps_lines(
                    self@.instances,
                    self@.selected_index,
                ));
            }
            return out;
        }
        let mut header = pad_right("Name", 25);
        header.append(" ");
        let h2 = pad_right("Type", 10);
        header.append(h2.as_str());
        header.append(" ");
        let h3 = pad_right("Status", 10);
        header.append(h3.as_str());
        header.append(" ");
        let h4 = pad_right("Port", 8);
        header.append(h4.as_str());
        header.append(" ");
        let h5 = pad_right("Started", 20);
        header.append(h5.as_str());
        out.push(header);
        let mut i: usize = 0;
        while i < n
            invariant
                i <= n,
                n == self@.instances.len(),
                out@.len() == 3 + i,
                out@[0]@ == "Current MCP Servers"@,
                out@[1]@ == Seq::<char>::empty(),
                out@[2]@ == spec_instance_header(),
                forall|j: int|
                    3 <= j < 3 + i ==> (#[trigger] out@[j])@ == spec_instance_line(
                        self@.instances[j - 3],
                        j - 3 == self@.selected_index,
                    ),
            decreases n - i,
        {
            let line = instance_line(self.instances.get_at(i), i == self.selected_index);
            out.push(line);
            i += 1;
        }
        out.push(String::new());
        out.push("Enter: Open terminal | s: Stop | r: Restart | b: Back".to_owned());
        proof {
            assert(forall|j: int|
                0 <= j < out@.len() ==> #[trigger] out.deep_view()[j] == out@[j]@);
            assert(out.deep_view() =~= spec_current_mcps_lines(
                self@.instances,
                self@.selected_index,
            ));
        }
        out
    }
}

/// One list line of the launch screen: the selection marker, the name, the
/// type in brackets, the command.
pub open spec fn spec_config_line(c: McpConfigView, selected: bool) -> Seq<char> {
    let prefix = if selected {
        "> "@
    } else {
        "  "@
    };
    prefix + c.name + " ["@ + spec_type_label(c.mcp_type) + "] - "@ + c.command
}

/// The launch screen's lines: an empty-state message when nothing is
/// configured; otherwise one line per configuration, in list order, with
/// the selected line marked.
pub open spec fn spec_launch_mcp_lines(configs: Seq<McpConfigView>, selected: int) -> Seq<
    Seq<char>,
> {
    if configs.len() == 0 {
        seq![
            "Launch MCP Server"@,
            Seq::empty(),
            "No MCP servers configured. Press 'b' to go back and add one."@,
        ]
    } else {
        seq!["Launch MCP Server"@, Seq::<char>::empty()] + Seq::new(
            configs.len(),
            |i: int| spec_config_line(configs[i], i == selected),
        ) + seq![Seq::<char>::empty(), "Enter: Launch | e: Edit | d: Delete | b: Back"@]
    }
}

impl State {
    /// Render the launch screen.
    pub fn render_launch_mcp(&self) -> (r: Vec<String>)
        ensures
            r.deep_view() == spec_launch_mcp_lines(self@.configs, self@.selected_index),
    {
        let mut out: Vec<String> = Vec::new();
        out.push("Launch MCP Server".to_owned());
        out.push(String::new());
        let n = self.configs.len();
        if n == 0 {
            out.push("No MCP servers configured. Press 'b' to go back and add one.".to_owned());
            proof {
                assert(out.deep_view() =~= spec_launch_mcp_lines(
                    self@.configs,
                    self@.selected_index,
                ));
            }
            return out;
        }
        let mut i: usize = 0;
        while i < n
            invariant
                i <= n,
                n == self@.configs.len(),
                out@.len() == 2 + i,
                out@[0]@ == "Launch MCP Server"@,
                out@[1]@ == Seq::<char>::empty(),
                forall|j: int|
                    2 <= j < 2 + i ==> (#[trigger] out@[j])@ == spec_config_line(
                        self@.configs[j - 2],
                        j - 2 == self@.selected_index,
                    ),
            decreases n - i,
        {
            let config = &self.configs[i];
            let mut line = if i == self.selected_index {
                "> ".to_owned()
            } else {
                "  ".to_owned()
            };
            line.append(config.name.as_str());
            line.append(" [");
            let ty = type_label(config.mcp_type);
            line.append(ty.as_str());
            line.append("] - ");
            line.append(config.command.as_str());
            out.push(line);
            i += 1;
        }
        out.push(String::new());
        out.push("Enter: Launch | e: Edit | d: Delete | b: Back".to_owned());
        proof {
            assert(forall|j: int|
                0 <= j < out@.len() ==> #[trigger] out.deep_view()[j] == out@[j]@);
            assert(out.deep_view() =~= spec_launch_mcp_lines(self@.configs, self@.selected_index));
        }
        out
    }
}

/// One form line of the add/edit screen: the cursor marker, the label
/// right-aligned to twelve characters, and the stored value — or the typed
/// text with a trailing cursor when the field is current.
pub open spec fn spec_form_line(
    label: Seq<char>,
    current: bool,
    buffer: Seq<char>,
    value: Seq<char>,
) -> Seq<char> {
    let prefix = if current {
        "> "@
    } else {
        "  "@
    };
    prefix + spec_pad_left(label, 12) + ": "@ + (if current {
        buffer + "_"@
    } else {
        value
    })
}

/// Render one form line.
pub fn form_line(label: &str, current: bool, buffer: &str, value: &str) -> (r: String)
    ensures
        r@ == spec_form_line(label@, current, buffer@, value@),
{
    let mut line = if current {
        "> ".to_owned()
    } else {
        "  ".to_owned()
    };
    let padded = pad_left(label, 12);
    line.append(padded.as_str());
    line.append(": ");
    if current {
        line.append(buffer);
        line.append("_");
    } else {
        line.append(value);
    }
    line
}

/// One argument line of the configure screen: the cursor marker, the
/// argument's name right-aligned to fifteen characters, its value — or the
/// typed text with a cursor and a browse hint for directory arguments —
/// a requiredness mark, and the description.
pub open spec fn spec_arg_line(
    c: McpConfigView,
    i: int,
    current: bool,
    buffer: Seq<char>,
) -> Seq<char>
    recommends
        0 <= i < c.dynamic_args.len(),
{
    let a = c.dynamic_args[i];
    let shown = if current {
        buffer + "_"@ + (if a.value_type is Directory {
            " (Ctrl+D to browse)"@
        } else {
            Seq::empty()
        })
    } else {
        spec_arg_buffer(c, i, Seq::empty())
    };
    let prefix = if current {
        "> "@
    } else {
        "  "@
    };
    prefix + spec_pad_left(a.name, 15) + ": "@ + shown + (if a.required {
        " [required]"@
    } else {
        Seq::empty()
    }) + " - "@ + a.description
}

/// The configure screen's lines for a configuration without declared
/// arguments.
pub open spec fn spec_configure_args_empty_lines(c: McpConfigView) -> Seq<Seq<char>> {
    seq![
        "Configure Arguments for: "@ + c.name,
        Seq::empty(),
        "No arguments to configure."@,
        Seq::empty(),
        "Press Enter to launch or Esc to cancel"@,
    ]
}

/// The configure screen's lines: the command to run, the working directory
/// when set, then one line per declared argument with the edited one
/// marked.
pub open spec fn spec_configure_args_lines(
    c: McpConfigView,
    edit_index: int,
    buffer: Seq<char>,
) -> Seq<Seq<char>> {
    if c.dynamic_args.len() == 0 {
        spec_configure_args_empty_lines(c)
    } else {
        seq!["Configure Arguments for: "@ + c.name, Seq::<char>::empty()] + seq![
            "Command: "@ + c.command + " "@ + spec_join(c.base_args, " "@),
        ] + (match c.working_dir {
            Some(wd) => seq!["Working Dir: "@ + wd],
            None => Seq::<Seq<char>>::empty(),
        }) + seq![Seq::<char>::empty()] + Seq::new(
            c.dynamic_args.len(),
            |i: int| spec_arg_line(c, i, i == edit_index, buffer),
        )
    }
}

impl State {
    /// Render the configure-arguments screen; empty off that screen.
    pub fn render_configure_args(&self) -> (r: Vec<String>)
        ensures
            self@.screen matches ScreenView::ConfigureArgs(c) ==> r.deep_view()
                == spec_configure_args_lines(c, self@.editing_arg_index, self@.input_buffer),
            !(self@.screen is ConfigureArgs) ==> r.deep_view() == Seq::<Seq<char>>::empty(),
    {
        let mut out: Vec<String> = Vec::new();
        let config = match &self.screen {
            Screen::ConfigureArgs(c) => c,
            _ => {
                proof {
                    assert(out.deep_view() =~= Seq::<Seq<char>>::empty());
                }
                return out;
            },
        };
        let mut title = "Configure Arguments for: ".to_owned();
        title.append(config.name.as_str());
        out.push(title);
        out.push(String::new());
        let n = config.dynamic_args.len();
        if n == 0 {
            out.push("No arguments to configure.".to_owned());
            out.push(String::new());
            out.push("Press Enter to launch or Esc to cancel".to_owned());
            proof {
                let c = self@.screen->ConfigureArgs_0;
                assert(out.deep_view() =~= spec_configure_args_empty_lines(c));
            }
            return out;
        }
        let mut command = "Command: ".to_owned();
        command.append(config.command.as_str());
        command.append(" ");
        let joined = join_strings(&config.base_args, " ");
        command.append(joined.as_str());
        out.push(command);
        match &config.working_dir {
            Some(wd) => {
                let mut wdl = "Working Dir: ".to_owned();
                wdl.append(wd.as_str());
                out.push(wdl);
            },
            None => {},
        }
        out.push(String::new());
        let ghost before: Seq<Seq<char>> = out.deep_view();
        let ghost cv: McpConfigView = self@.screen->ConfigureArgs_0;
        proof {
            assert(config.base_args.deep_view() =~= cv.base_args);
            assert(before =~= seq!["Configure Arguments for: "@ + cv.name, Seq::<char>::empty()]
                + seq!["Command: "@ + cv.command + " "@ + spec_join(cv.base_args, " "@)] + (
            match cv.working_dir {
                Some(wd) => seq!["Working Dir: "@ + wd],
                None => Seq::<Seq<char>>::empty(),
            }) + seq![Seq::<char>::empty()]);
        }
        let base = out.len();
        let ghost basen: int = base as int;
        proof {
            assert(forall|j: int|
                0 <= j < out@.len() ==> #[trigger] out.deep_view()[j] == out@[j]@);
        }
        let mut i: usize = 0;
        while i < n
            invariant
                i <= n,
                n == cv.dynamic_args.len(),
                cv == self@.screen->ConfigureArgs_0,
                self@.screen is ConfigureArgs,
                basen == base as int,
                basen == before.len(),
                out@.len() == base + i,
                forall|j: int| 0 <= j < basen ==> (#[trigger] out@[j])@ == before[j],
                forall|j: int|
                    basen <= j < basen + i ==> (#[trigger] out@[j])@ == spec_arg_line(
                        cv,
                        j - basen,
                        j - basen == self@.editing_arg_index,
                        self@.input_buffer,
                    ),
            decreases n - i,
        {
            let line = self.configure_arg_line(i);
            out.push(line);
            i += 1;
        }
        proof {
            assert(forall|j: int|
                0 <= j < out@.len() ==> #[trigger] out.deep_view()[j] == out@[j]@);
            assert(out.deep_view() =~= spec_configure_args_lines(
                cv,
                self@.editing_arg_index,
                self@.input_buffer,
            ));
        }
        out
    }

    /// Render one argument line of the configure screen.
    fn configure_arg_line(&self, i: usize) -> (r: String)
        requires
            self@.screen is ConfigureArgs,
            i < (self@.screen->ConfigureArgs_0).dynamic_args.len(),
        ensures
            r@ == spec_arg_line(
                self@.screen->ConfigureArgs_0,
                i as int,
                i as int == self@.editing_arg_index,
                self@.input_buffer,
            ),
    {
        let config = match &self.screen {
            Screen::ConfigureArgs(c) => c,
            _ => {
                proof {
                    assert(false);
                }
                return String::new();
            },
        };
        let arg = &config.dynamic_args[i];
        let current = i == self.editing_arg_index;
        let mut line = if current {
            "> ".to_owned()
        } else {
            "  ".to_owned()
        };
        let padded = pad_left(arg.name.as_str(), 15);
        line.append(padded.as_str());
        line.append(": ");
        if current {
            line.append(self.input_buffer.as_str());
            line.append("_");
            if matches!(arg.value_type, crate::config::ArgType::Directory) {
                line.append(" (Ctrl+D to browse)");
            }
        } else {
            let shown = match config.arg_values.get(arg.name.as_str()) {
                Some(v) => v,
                None => match &arg.default {
                    Some(d) => d.clone(),
                    None => String::new(),
                },
            };
            line.append(shown.as_str());
        }
        if arg.required {
            line.append(" [required]");
        }
        line.append(" - ");
        line.append(arg.description.as_str());
        proof {
            assert(line@ =~= spec_arg_line(
                self@.screen->ConfigureArgs_0,
                i as int,
                i as int == self@.editing_arg_index,
                self@.input_buffer,
            ));
        }
        line
    }
}

/// The lines of the directory-browsing screen: the current path and a
/// window of at most twenty entries around the selection, the parent entry
/// shown as `[Parent Directory]`, others with a trailing slash.
pub open spec fn spec_browse_lines(
    path: Seq<char>,
    entries: Seq<Seq<char>>,
    sel: int,
) -> Seq<Seq<char>> {
    let start0 = if sel > 10 {
        sel - 10
    } else {
        0
    };
    let start = if start0 > entries.len() {
        entries.len() as int
    } else {
        start0
    };
    let end = if start + 20 < entries.len() {
        start + 20
    } else {
        entries.len() as int
    };
    seq!["Browse Directory"@, Seq::<char>::empty(), "Current: "@ + path, Seq::<char>::empty()]
        + Seq::new(
        (end - start) as nat,
        |i: int| spec_browse_entry_line(entries[start + i], start + i == sel),
    )
}

/// One entry line of the browsing window.
pub open spec fn spec_browse_entry_line(e: Seq<char>, selected: bool) -> Seq<char> {
    let prefix = if selected {
        "> "@
    } else {
        "  "@
    };
    if e == ".."@ {
        prefix + "[Parent Directory]"@
    } else {
        prefix + e + "/"@
    }
}

impl State {
    /// Render the directory-browsing screen; empty off that screen.
    pub fn render_browse_directory(&self) -> (r: Vec<String>)
        ensures
            self@.screen matches ScreenView::BrowseDirectory {
                current_path,
                entries,
                selected_index,
                ..
            } ==> r.deep_view() == spec_browse_lines(current_path, entries, selected_index),
            !(self@.screen is BrowseDirectory) ==> r.deep_view() == Seq::<Seq<char>>::empty(),
    {
        let mut out: Vec<String> = Vec::new();
        let (path, entries, sel) = match &self.screen {
            Screen::BrowseDirectory { current_path, entries, selected_index, .. } => (
                current_path,
                entries,
                *selected_index,
            ),
            _ => {
                proof {
                    assert(out.deep_view() =~= Seq::<Seq<char>>::empty());
                }
                return out;
            },
        };
        out.push("Browse Directory".to_owned());
        out.push(String::new());
        let mut cur = "Current: ".to_owned();
        cur.append(path.as_str());
        out.push(cur);
        out.push(String::new());
        let total = entries.len();
        let start0 = if sel > 10 {
            sel - 10
        } else {
            0
        };
        let start = if start0 > total {
            total
        } else {
            start0
        };
        let end = if total - start > 20 {
            start + 20
        } else {
            total
        };
        let ghost entv: Seq<Seq<char>> = (self@.screen)->BrowseDirectory_entries;
        proof {
            assert(Seq::new(entries@.len(), |i: int| entries@[i]@) =~= entv);
        }
        let mut i: usize = start;
        while i < end
            invariant
                start <= i <= end,
                end <= total,
                total == entv.len(),
                self@.screen is BrowseDirectory,
                entv == (self@.screen)->BrowseDirectory_entries,
                entv == Seq::new(entries@.len(), |j: int| entries@[j]@),
                total == entries@.len(),
                sel == (self@.screen)->BrowseDirectory_selected_index,
                out@.len() == 4 + i - start,
                out@[0]@ == "Browse Directory"@,
                out@[1]@ == Seq::<char>::empty(),
                out@[2]@ == "Current: "@ + (self@.screen)->BrowseDirectory_current_path,
                out@[3]@ == Seq::<char>::empty(),
                forall|j: int|
                    4 <= j < 4 + i - start ==> (#[trigger] out@[j])@ == spec_browse_entry_line(
                        entv[start + j - 4],
                        start + j - 4 == sel as int,
                    ),
            decreases end - i,
        {
            let mut line = if i == sel {
                "> ".to_owned()
            } else {
                "  ".to_owned()
            };
            if crate::browser::is_parent_entry(entries[i].as_str()) {
                line.append("[Parent Directory]");
            } else {
                line.append(entries[i].as_str());
                line.append("/");
            }
            out.push(line);
            i += 1;
        }
        proof {
            assert(forall|j: int|
                0 <= j < out@.len() ==> #[trigger] out.deep_view()[j] == out@[j]@);
            assert(out.deep_view() =~= spec_browse_lines(
                (self@.screen)->BrowseDirectory_current_path,
                entv,
                (self@.screen)->BrowseDirectory_selected_index,
            ));
        }
        out
    }
}

/// The one-line help shown at the bottom of each screen.
pub open spec fn spec_footer_line(screen: ScreenView) -> Seq<char> {
    match screen {
        ScreenView::MainMenu => "Select option (1-3) or press 'q' to quit"@,
        ScreenView::CurrentMcps => "Up/Down: Navigate | Enter: Terminal | s: Stop | r: Restart | b: Back"@,
        ScreenView::LaunchMcp => "Up/Down: Navigate | Enter: Configure | e: Edit | d: Delete | b: Back"@,
        ScreenView::AddMcp => "Tab: Next | Enter: Save field | Ctrl+D: Browse dirs | Esc: Cancel"@,
        ScreenView::EditMcp(_) => "Tab: Next | Enter: Save field | Ctrl+D: Browse dirs | Esc: Cancel"@,
        ScreenView::ConfigureArgs(_) => "Up/Down: Navigate | Tab: Next | Enter: Launch | Ctrl+D: Browse | Esc: Cancel"@,
        ScreenView::BrowseDirectory { .. } => "Up/Down: Navigate | Enter: Enter dir | s: Select current | Esc: Cancel"@,
    }
}

/// The messages left by the last action, each as one line: the error first,
/// then the success.
pub open spec fn spec_message_lines(s: StateView) -> Seq<Seq<char>> {
    (match s.error_message {
        Some(e) => seq!["Error: "@ + e],
        None => Seq::<Seq<char>>::empty(),
    }) + (match s.success_message {
        Some(m) => seq!["OK: "@ + m],
        None => Seq::<Seq<char>>::empty(),
    })
}

impl State {
    /// Render the bottom help line of the live screen.
    pub fn render_footer(&self) -> (r: String)
        ensures
            r@ == spec_footer_line(self@.screen),
    {
        match &self.screen {
            Screen::MainMenu => "Select option (1-3) or press 'q' to quit".to_owned(),
            Screen::CurrentMcps => "Up/Down: Navigate | Enter: Terminal | s: Stop | r: Restart | b: Back".to_owned(),
            Screen::LaunchMcp => "Up/Down: Navigate | Enter: Configure | e: Edit | d: Delete | b: Back".to_owned(),
            Screen::AddMcp => "Tab: Next | Enter: Save field | Ctrl+D: Browse dirs | Esc: Cancel".to_owned(),
            Screen::EditMcp(_) => "Tab: Next | Enter: Save field | Ctrl+D: Browse dirs | Esc: Cancel".to_owned(),
            Screen::ConfigureArgs(_) => "Up/Down: Navigate | Tab: Next | Enter: Launch | Ctrl+D: Browse | Esc: Cancel".to_owned(),
            Screen::BrowseDirectory { .. } => "Up/Down: Navigate | Enter: Enter dir | s: Select current | Esc: Cancel".to_owned(),
        }
    }

    /// Render the one-shot message lines.
    pub fn render_messages(&self) -> (r: Vec<String>)
        ensures
            r.deep_view() == spec_message_lines(self@),
    {
        let mut out: Vec<String> = Vec::new();
        match &self.error_message {
            Some(e) => {
                let mut line = "Error: ".to_owned();
                line.append(e.as_str());
                out.push(line);
            },
            None => {},
        }
        match &self.success_message {
            Some(m) => {
                let mut line = "OK: ".to_owned();
                line.append(m.as_str());
                out.push(line);
            },
            None => {},
        }
        proof {
            assert(out.deep_view() =~= spec_message_lines(self@));
        }
        out
    }
}

// ---------- the add/edit form ----------

/// The form screen's title.
pub open spec fn spec_add_edit_title(screen: ScreenView) -> Seq<char> {
    match screen {
        ScreenView::AddMcp => "Add MCP Server"@,
        ScreenView::EditMcp(name) => "Edit MCP Server: "@ + name,
        _ => "MCP Configuration"@,
    }
}

/// The working-directory line: the cursor marker, the label, and either the
/// typed text with a cursor and a browse hint, or the stored directory.
pub open spec fn spec_working_dir_line(s: StateView) -> Seq<char> {
    let current = s.input_field is WorkingDir;
    let prefix = if current {
        "> "@
    } else {
        "  "@
    };
    prefix + spec_pad_left("Working Dir"@, 12) + ": "@ + (if current {
        s.input_buffer + "_ (Ctrl+D to browse)"@
    } else {
        match s.editing_config.working_dir {
            Some(d) => d,
            None => Seq::empty(),
        }
    })
}

/// The environment block: a heading, then — while the field is being typed —
/// a format hint, the typed lines and a cursor, or otherwise one line per
/// stored assignment.
pub open spec fn spec_env_block(s: StateView) -> Seq<Seq<char>> {
    let current = s.input_field is EnvVars;
    let prefix = if current {
        "> "@
    } else {
        "  "@
    };
    seq![prefix + spec_pad_left("Env Vars"@, 12) + ": "@] + (if current {
        seq!["    (KEY=VALUE format, one per line)"@] + Seq::new(
            crate::text::spec_lines(s.input_buffer).len(),
            |i: int| "    "@ + crate::text::spec_lines(s.input_buffer)[i],
        ) + seq!["    _"@]
    } else {
        Seq::new(
            s.editing_config.env_vars.len(),
            |i: int| "    "@ + s.editing_config.env_vars[i].0 + "="@
                + s.editing_config.env_vars[i].1,
        )
    })
}

/// The add/edit screen's lines: the title, the five text fields, the
/// working directory, the activation script for Python-style templates, and
/// the environment block, with the current field marked and showing the
/// typed text.
pub open spec fn spec_add_edit_lines(s: StateView) -> Seq<Seq<char>> {
    let c = s.editing_config;
    let f = s.input_field;
    let b = s.input_buffer;
    seq![spec_add_edit_title(s.screen), Seq::<char>::empty()] + seq![
        spec_form_line("Name"@, f is Name, b, c.name),
        spec_form_line(
            "Template (agent/fs/git/python/node/npx/custom)"@,
            f is Template,
            b,
            spec_template_label(c.template),
        ),
        spec_form_line("Type (stdio/http)"@, f is Type, b, spec_type_label(c.mcp_type)),
        spec_form_line("Command"@, f is Command, b, c.command),
        spec_form_line("Arguments"@, f is Args, b, spec_join(c.base_args, " "@)),
        spec_working_dir_line(s),
    ] + (if c.template is PythonProject {
        seq![
            spec_form_line("Venv Script"@, f is ActivationScript, b, match c.activation_script {
                Some(a) => a,
                None => Seq::empty(),
            }),
        ]
    } else {
        Seq::<Seq<char>>::empty()
    }) + spec_env_block(s) + seq![
        Seq::<char>::empty(),
        Seq::<char>::empty(),
        "Tab: Next field | Shift+Tab: Previous field | Enter: Save field | Ctrl+D: Browse dirs | Esc: Cancel"@,
    ]
}

impl State {
    /// Render the add/edit form.
    #[verifier::rlimit(100)]
    pub fn render_add_edit_mcp(&self) -> (r: Vec<String>)
        ensures
            r.deep_view() == spec_add_edit_lines(self@),
    {
        let mut out: Vec<String> = Vec::new();
        match &self.screen {
            Screen::AddMcp => {
                out.push("Add MCP Server".to_owned());
            },
            Screen::EditMcp(name) => {
                let mut t = "Edit MCP Server: ".to_owned();
                t.append(name.as_str());
                out.push(t);
            },
            _ => {
                out.push("MCP Configuration".to_owned());
            },
        }
        out.push(String::new());
        let b = self.input_buffer.as_str();
        let l1 = form_line(
            "Name",
            matches!(self.input_field, InputField::Name),
            b,
            self.editing_config.name.as_str(),
        );
        out.push(l1);
        let tpl = template_label(self.editing_config.template);
        let l2 = form_line(
            "Template (agent/fs/git/python/node/npx/custom)",
            matches!(self.input_field, InputField::Template),
            b,
            tpl.as_str(),
        );
        out.push(l2);
        let ty = type_label(self.editing_config.mcp_type);
        let l3 = form_line(
            "Type (stdio/http)",
            matches!(self.input_field, InputField::Type),
            b,
            ty.as_str(),
        );
        out.push(l3);
        let l4 = form_line(
            "Command",
            matches!(self.input_field, InputField::Command),
            b,
            self.editing_config.command.as_str(),
        );
        out.push(l4);
        let args = join_strings(&self.editing_config.base_args, " ");
        let l5 = form_line(
            "Arguments",
            matches!(self.input_field, InputField::Args),
            b,
            args.as_str(),
        );
        out.push(l5);
        let wd_current = matches!(self.input_field, InputField::WorkingDir);
        let mut wd = if wd_current {
            "> ".to_owned()
        } else {
            "  ".to_owned()
        };
        let wd_label = pad_left("Working Dir", 12);
        wd.append(wd_label.as_str());
        wd.append(": ");
        if wd_current {
            wd.append(b);
            wd.append("_ (Ctrl+D to browse)");
        } else {
            match &self.editing_config.working_dir {
                Some(d) => wd.append(d.as_str()),
                None => {},
            }
        }
        out.push(wd);
        if matches!(self.editing_config.template, crate::config::McpTemplate::PythonProject) {
            let act = match &self.editing_config.activation_script {
                Some(a) => a.clone(),
                None => String::new(),
            };
            let l7 = form_line(
                "Venv Script",
                matches!(self.input_field, InputField::ActivationScript),
                b,
                act.as_str(),
            );
            out.push(l7);
        }
        let env_current = matches!(self.input_field, InputField::EnvVars);
        let mut eh = if env_current {
            "> ".to_owned()
        } else {
            "  ".to_owned()
        };
        let env_label = pad_left("Env Vars", 12);
        eh.append(env_label.as_str());
        eh.append(": ");
        out.push(eh);
        let ghost head: Seq<Seq<char>> = out.deep_view();
        proof {
            assert(forall|j: int|
                0 <= j < out@.len() ==> #[trigger] out.deep_view()[j] == out@[j]@);
            assert(self.editing_config.base_args.deep_view()
                =~= self@.editing_config.base_args);
            assert(head[0] == spec_add_edit_title(self@.screen));
            assert(head[1] == Seq::<char>::empty());
            assert(head[2] == spec_form_line("Name"@, self@.input_field is Name,
                self@.input_buffer, self@.editing_config.name));
            assert(head[3] == spec_form_line(
                "Template (agent/fs/git/python/node/npx/custom)"@,
                self@.input_field is Template,
                self@.input_buffer,
                spec_template_label(self@.editing_config.template),
            ));
            assert(head[4] == spec_form_line("Type (stdio/http)"@, self@.input_field is Type,
                self@.input_buffer, spec_type_label(self@.editing_config.mcp_type)));
            assert(head[5] == spec_form_line("Command"@, self@.input_field is Command,
                self@.input_buffer, self@.editing_config.command));
            assert(head[6] == spec_form_line("Arguments"@, self@.input_field is Args,
                self@.input_buffer, spec_join(self@.editing_config.base_args, " "@)));
            assert(head[7] == spec_working_dir_line(self@));
            assert(head.last() == spec_env_block(self@)[0]);
            assert(head =~= seq![
                spec_add_edit_title(self@.screen),
                Seq::<char>::empty(),
            ] + seq![
                spec_form_line("Name"@, self@.input_field is Name, self@.input_buffer,
                    self@.editing_config.name),
                spec_form_line(
                    "Template (agent/fs/git/python/node/npx/custom)"@,
                    self@.input_field is Template,
                    self@.input_buffer,
                    spec_template_label(self@.editing_config.template),
                ),
                spec_form_line("Type (stdio/http)"@, self@.input_field is Type,
                    self@.input_buffer, spec_type_label(self@.editing_config.mcp_type)),
                spec_form_line("Command"@, self@.input_field is Command, self@.input_buffer,
                    self@.editing_config.command),
                spec_form_line("Arguments"@, self@.input_field is Args, self@.input_buffer,
                    spec_join(self@.editing_config.base_args, " "@)),
                spec_working_dir_line(self@),
            ] + (if self@.editing_config.template is PythonProject {
                seq![
                    spec_form_line(
                        "Venv Script"@,
                        self@.input_field is ActivationScript,
                        self@.input_buffer,
                        match self@.editing_config.activation_script {
                            Some(a) => a,
                            None => Seq::empty(),
                        },
                    ),
                ]
            } else {
                Seq::<Seq<char>>::empty()
            }) + seq![spec_env_block(self@)[0]]);
        }
        let ghost head2: Seq<Seq<char>> = head;
        let hbase = out.len();
        if env_current {
            out.push("    (KEY=VALUE format, one per line)".to_owned());
            let lines = crate::text::split_lines(b);
            let ghost lv: Seq<Seq<char>> = lines.deep_view();
            let n = lines.len();
            let mut i: usize = 0;
            while i < n
                invariant
                    i <= n,
                    n == lv.len(),
                    lv == lines.deep_view(),
                    out@.len() == hbase + 1 + i,
                    hbase == head2.len(),
                    forall|j: int| 0 <= j < hbase ==> (#[trigger] out@[j])@ == head2[j],
                    out@[hbase as int]@ == "    (KEY=VALUE format, one per line)"@,
                    forall|j: int|
                        hbase + 1 <= j < hbase + 1 + i ==> (#[trigger] out@[j])@ == "    "@
                            + lv[j - hbase - 1],
                decreases n - i,
            {
                let mut line = "    ".to_owned();
                line.append(lines[i].as_str());
                out.push(line);
                i += 1;
            }
            out.push("    _".to_owned());
            proof {
                assert(lv == crate::text::spec_lines(self@.input_buffer));
            }
        } else {
            let n = self.editing_config.env_vars.len();
            let mut i: usize = 0;
            while i < n
                invariant
                    i <= n,
                    n == self@.editing_config.env_vars.len(),
                    out@.len() == hbase + i,
                    hbase == head2.len(),
                    forall|j: int| 0 <= j < hbase ==> (#[trigger] out@[j])@ == head2[j],
                    forall|j: int|
                        hbase <= j < hbase + i ==> (#[trigger] out@[j])@ == "    "@
                            + self@.editing_config.env_vars[j - hbase].0 + "="@
                            + self@.editing_config.env_vars[j - hbase].1,
                decreases n - i,
            {
                let mut line = "    ".to_owned();
                line.append(self.editing_config.env_vars.key_at(i).as_str());
                line.append("=");
                line.append(self.editing_config.env_vars.val_at(i).as_str());
                out.push(line);
                i += 1;
            }
        }
        out.push(String::new());
        out.push(String::new());
        out.push("Tab: Next field | Shift+Tab: Previous field | Enter: Save field | Ctrl+D: Browse dirs | Esc: Cancel".to_owned());
        proof {
            assert(forall|j: int|
                0 <= j < out@.len() ==> #[trigger] out.deep_view()[j] == out@[j]@);
            assert(out.deep_view() =~= spec_add_edit_lines(self@));
        }
        out
    }
}

} // verus!
