//! The full-terminal intro: a welcome banner, a three-option menu, and the
//! action the caller leaves with. The terminal loop around it performs the
//! reads and writes; here live the decisions and the text.

use vstd::prelude::*;

verus! {

/// What leaving the intro asks the caller to do next.
#[derive(Debug)]
pub enum IntroAction {
    StartTerminal,
    LaunchProject,
    Settings,
}

/// Mathematical image of an [`IntroAction`].
#[verifier::ext_equal]
pub ghost enum IntroActionView {
    StartTerminal,
    LaunchProject,
    Settings,
}

impl View for IntroAction {
    type V = IntroActionView;

    open spec fn view(&self) -> IntroActionView {
        match self {
            IntroAction::StartTerminal => IntroActionView::StartTerminal,
            IntroAction::LaunchProject => IntroActionView::LaunchProject,
            IntroAction::Settings => IntroActionView::Settings,
        }
    }
}

/// The intro's screens; only the welcome screen exists today.
#[derive(Clone, Copy, Debug, PartialEq, Eq, Structural)]
pub enum IntroScreen {
    Welcome,
}

/// A key reaching the intro loop.
#[derive(Clone, Copy, Debug, PartialEq, Eq, Structural)]
pub enum IntroKey {
    Esc,
    Up,
    Down,
    Enter,
    Char(char),
}

/// The intro's state: which screen is shown and which option is selected.
pub struct IntroApp {
    pub current_screen: IntroScreen,
    pub selected_option: usize,
}

/// The action the welcome menu's options stand for, by position: launching
/// a project, starting a terminal, opening the settings.
pub open spec fn spec_option_action(option: int) -> Option<IntroActionView> {
    if option == 0 {
        Some(IntroActionView::LaunchProject)
    } else if option == 1 {
        Some(IntroActionView::StartTerminal)
    } else if option == 2 {
        Some(IntroActionView::Settings)
    } else {
        None
    }
}

impl IntroApp {
    /// A fresh intro: the welcome screen with its first option selected.
    pub fn new() -> (r: Self)
        ensures
            r.current_screen is Welcome,
            r.selected_option == 0,
    {
        Self { current_screen: IntroScreen::Welcome, selected_option: 0 }
    }

    /// One key step of the intro loop: move the selection, or decide the
    /// action to leave with. Leaving by escape starts a terminal; entering
    /// takes the selected option; the digit keys take an option directly.
    pub fn handle_key(&mut self, key: IntroKey) -> (r: Option<IntroAction>)
        ensures
            final(self).current_screen == old(self).current_screen,
            key == IntroKey::Esc ==> (r matches Some(a) && a@ == IntroActionView::StartTerminal)
                && final(self).selected_option == old(self).selected_option,
            key == IntroKey::Up ==> r is None && final(self).selected_option as int == if old(
                self,
            ).selected_option > 0 {
                old(self).selected_option - 1
            } else {
                old(self).selected_option as int
            },
            key == IntroKey::Down ==> r is None && final(self).selected_option as int == if old(
                self,
            ).selected_option < 2 {
                old(self).selected_option + 1
            } else {
                old(self).selected_option as int
            },
            key == IntroKey::Enter ==> final(self).selected_option == old(self).selected_option
                && (match r {
                Some(a) => spec_option_action(old(self).selected_option as int) == Some(a@),
                None => spec_option_action(old(self).selected_option as int) is None,
            }),
            key == IntroKey::Char('1') ==> (r matches Some(a) && a@
                == IntroActionView::LaunchProject),
            key == IntroKey::Char('2') ==> (r matches Some(a) && a@
                == IntroActionView::StartTerminal),
            key == IntroKey::Char('3') ==> (r matches Some(a) && a@
                == IntroActionView::Settings),
            (key matches IntroKey::Char(c) && c != '1' && c != '2' && c != '3') ==> r is None
                && *final(self) == *old(self),
    {
        match key {
            IntroKey::Esc => Some(IntroAction::StartTerminal),
            IntroKey::Up => {
                if self.selected_option > 0 {
                    self.selected_option = self.selected_option - 1;
                }
                None
            },
            IntroKey::Down => {
                if self.selected_option < 2 {
                    self.selected_option = self.selected_option + 1;
                }
                None
            },
            IntroKey::Enter => {
                if self.selected_option == 0 {
                    Some(IntroAction::LaunchProject)
                } else if self.selected_option == 1 {
                    Some(IntroAction::StartTerminal)
                } else if self.selected_option == 2 {
                    Some(IntroAction::Settings)
                } else {
                    None
                }
            },
            IntroKey::Char(c) => {
                if c == '1' {
                    Some(IntroAction::LaunchProject)
                } else if c == '2' {
                    Some(IntroAction::StartTerminal)
                } else if c == '3' {
                    Some(IntroAction::Settings)
                } else {
                    None
                }
            },
        }
    }
}

/// The column a line of a given width starts at when centred on a surface:
/// half the spare room, or the left edge when it does not fit.
pub open spec fn spec_centered_col(width: nat, cols: nat) -> nat {
    if width <= cols {
        ((cols - width) / 2) as nat
    } else {
        0
    }
}

/// The column a line of a given width starts at when centred.
pub fn centered_col(width: usize, cols: usize) -> (r: usize)
    ensures
        r == spec_centered_col(width as nat, cols as nat),
{
    if width <= cols {
        (cols - width) / 2
    } else {
        0
    }
}

/// The row the welcome banner starts at: vertically centred in the room
/// left over above twenty lines, never above the second row.
pub open spec fn spec_banner_start_row(rows: nat) -> nat {
    let room = if rows >= 20 {
        (rows - 20) as nat
    } else {
        0
    };
    (if room >= 2 {
        room
    } else {
        2
    }) / 2 as nat
}

/// The row the welcome banner starts at.
pub fn banner_start_row(rows: usize) -> (r: usize)
    ensures
        r == spec_banner_start_row(rows as nat),
{
    let room = if rows >= 20 {
        rows - 20
    } else {
        0
    };
    let clamped = if room >= 2 {
        room
    } else {
        2
    };
    clamped / 2
}

/// The welcome menu's options, in order.
pub open spec fn spec_welcome_menu_items() -> Seq<Seq<char>> {
    seq!["1. Launch a Project"@, "2. Launch Terminal Session"@, "3. Settings"@]
}

/// The welcome menu's options, in order.
pub fn welcome_menu_items() -> (r: Vec<String>)
    ensures
        r.deep_view() == spec_welcome_menu_items(),
{
    let mut out: Vec<String> = Vec::new();
    out.push("1. Launch a Project".to_owned());
    out.push("2. Launch Terminal Session".to_owned());
    out.push("3. Settings".to_owned());
    proof {
        assert(out.deep_view() =~= spec_welcome_menu_items());
    }
    out
}

/// The tone a guide line is painted in: emphasis for bullet points, dimmed
/// for bracketed instructions, plain otherwise.
#[derive(Clone, Copy, Debug, PartialEq, Eq, Structural)]
pub enum IntroTone {
    Bullet,
    Instruction,
    Plain,
}

/// The tone of one guide line, decided by its first character.
pub open spec fn spec_intro_line_tone(l: Seq<char>) -> IntroTone {
    if l.len() > 0 && l[0] == '\u{2022}' {
        IntroTone::Bullet
    } else if l.len() > 0 && l[0] == '[' {
        IntroTone::Instruction
    } else {
        IntroTone::Plain
    }
}

/// The tone of one guide line.
pub fn intro_line_tone(l: &str) -> (r: IntroTone)
    ensures
        r == spec_intro_line_tone(l@),
{
    let len = l.unicode_len();
    if len > 0 {
        let c = l.get_char(0);
        if c == '\u{2022}' {
            IntroTone::Bullet
        } else if c == '[' {
            IntroTone::Instruction
        } else {
            IntroTone::Plain
        }
    } else {
        IntroTone::Plain
    }
}

/// The tone a key-reference line is painted in: headers end in a colon,
/// bindings are indented, instructions are bracketed.
#[derive(Clone, Copy, Debug, PartialEq, Eq, Structural)]
pub enum BindingTone {
    Header,
    Binding,
    Instruction,
    Plain,
}

/// The tone of one key-reference line.
pub open spec fn spec_binding_line_tone(l: Seq<char>) -> BindingTone {
    if l.len() > 0 && l.last() == ':' {
        BindingTone::Header
    } else if l.len() >= 2 && l[0] == ' ' && l[1] == ' ' {
        BindingTone::Binding
    } else if l.len() > 0 && l[0] == '[' {
        BindingTone::Instruction
    } else {
        BindingTone::Plain
    }
}

/// The tone of one key-reference line.
pub fn binding_line_tone(l: &str) -> (r: BindingTone)
    ensures
        r == spec_binding_line_tone(l@),
{
    let len = l.unicode_len();
    if len > 0 && l.get_char(len - 1) == ':' {
        BindingTone::Header
    } else if len >= 2 && l.get_char(0) == ' ' && l.get_char(1) == ' ' {
        BindingTone::Binding
    } else if len > 0 && l.get_char(0) == '[' {
        BindingTone::Instruction
    } else {
        BindingTone::Plain
    }
}

} // verus!
