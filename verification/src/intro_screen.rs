//! The hosted intro surface: a welcome menu that opens a guide, a key
//! reference or the session manager, or starts a fresh terminal. The host
//! performs the tab and close requests this hands back.

use vstd::prelude::*;

verus! {

/// The intro surface's screens.
#[derive(Clone, Copy, Debug, PartialEq, Eq, Structural)]
pub enum GuideScreen {
    Welcome,
    GettingStarted,
    KeyBindings,
    SessionManager,
}

/// A key reaching the intro surface.
#[derive(Clone, Copy, Debug, PartialEq, Eq, Structural)]
pub enum GuideKey {
    Esc,
    Up,
    Down,
    Enter,
    Char(char),
}

/// What the intro surface asks the host to do.
#[derive(Clone, Copy, Debug, PartialEq, Eq, Structural)]
pub enum GuideEffect {
    /// Open a fresh unnamed tab.
    NewTab,
    /// Close this surface.
    CloseSelf,
}

/// The intro surface's state.
pub struct GuideApp {
    pub current_screen: GuideScreen,
    pub selected_option: usize,
    pub rows: usize,
    pub cols: usize,
}

/// The screen an option of the welcome menu opens, by position; the last
/// option leaves for a fresh terminal instead.
pub open spec fn spec_welcome_target(option: int) -> Option<GuideScreen> {
    if option == 0 {
        Some(GuideScreen::GettingStarted)
    } else if option == 1 {
        Some(GuideScreen::KeyBindings)
    } else if option == 2 {
        Some(GuideScreen::SessionManager)
    } else {
        None
    }
}

impl GuideApp {
    /// A fresh intro surface: the welcome screen, first option selected.
    pub fn new() -> (r: Self)
        ensures
            r.current_screen is Welcome,
            r.selected_option == 0,
            r.rows == 0,
            r.cols == 0,
    {
        Self { current_screen: GuideScreen::Welcome, selected_option: 0, rows: 0, cols: 0 }
    }

    /// One key step: escape leaves the welcome screen for a fresh terminal
    /// and returns to the welcome screen from anywhere else; enter follows
    /// the selected option; the digit keys follow an option directly. The
    /// answer says whether to render, and what the host must do.
    pub fn handle_key(&mut self, key: GuideKey) -> (r: (bool, Vec<GuideEffect>))
        ensures
            key == GuideKey::Esc && old(self).current_screen is Welcome ==> *final(self)
                == *old(self) && r.0 && r.1@ == seq![GuideEffect::NewTab, GuideEffect::CloseSelf],
            key == GuideKey::Esc && !(old(self).current_screen is Welcome) ==> (final(self).current_screen is Welcome) && final(self).selected_option == 0 && r.0 && r.1@
                == Seq::<GuideEffect>::empty(),
            key == GuideKey::Up ==> r.0 && r.1@ == Seq::<GuideEffect>::empty() && final(self).current_screen == old(self).current_screen && final(self).selected_option as int
                == if old(self).selected_option > 0 {
                old(self).selected_option - 1
            } else {
                old(self).selected_option as int
            },
            key == GuideKey::Down ==> r.0 && r.1@ == Seq::<GuideEffect>::empty() && final(self).current_screen == old(self).current_screen && final(self).selected_option as int
                == {
                let max: int = if old(self).current_screen is Welcome {
                    3
                } else {
                    0
                };
                if old(self).selected_option < max {
                    old(self).selected_option + 1
                } else {
                    old(self).selected_option as int
                }
            },
            key == GuideKey::Enter && old(self).current_screen is Welcome ==> r.0 && (match
                spec_welcome_target(old(self).selected_option as int) {
                Some(target) => final(self).current_screen == target && r.1@
                    == Seq::<GuideEffect>::empty(),
                None => if old(self).selected_option == 3 {
                    *final(self) == *old(self) && r.1@ == seq![
                        GuideEffect::NewTab,
                        GuideEffect::CloseSelf,
                    ]
                } else {
                    *final(self) == *old(self) && r.1@ == Seq::<GuideEffect>::empty()
                },
            }),
            key == GuideKey::Enter && (old(self).current_screen is GettingStarted || old(self).current_screen is KeyBindings) ==> r.0 && r.1@ == Seq::<GuideEffect>::empty()
                && (if old(self).selected_option == 0 {
                (final(self).current_screen is Welcome) && final(self).selected_option == 0
            } else {
                *final(self) == *old(self)
            }),
            key == GuideKey::Char('1') && old(self).current_screen is Welcome ==> (final(self).current_screen is GettingStarted) && final(self).selected_option == old(self).selected_option && r.0 && r.1@ == Seq::<GuideEffect>::empty(),
            key == GuideKey::Char('2') && old(self).current_screen is Welcome ==> (final(self).current_screen is KeyBindings) && final(self).selected_option == old(self).selected_option && r.0 && r.1@ == Seq::<GuideEffect>::empty(),
            key == GuideKey::Char('3') && old(self).current_screen is Welcome ==> (final(self).current_screen is SessionManager) && final(self).selected_option == old(self).selected_option && r.0 && r.1@ == Seq::<GuideEffect>::empty(),
            key == GuideKey::Char('4') && old(self).current_screen is Welcome ==> *final(self)
                == *old(self) && r.0 && r.1@ == seq![GuideEffect::NewTab, GuideEffect::CloseSelf],
            (key matches GuideKey::Char(_)) && !(old(self).current_screen is Welcome) ==> *final(self) == *old(self) && !r.0 && r.1@ == Seq::<GuideEffect>::empty(),
            (key matches GuideKey::Char(c) && c != '1' && c != '2' && c != '3' && c != '4')
                ==> *final(self) == *old(self) && !r.0 && r.1@ == Seq::<GuideEffect>::empty(),
    {
        let mut eff: Vec<GuideEffect> = Vec::new();
        match key {
            GuideKey::Esc => {
                match self.current_screen {
                    GuideScreen::Welcome => {
                        eff.push(GuideEffect::NewTab);
                        eff.push(GuideEffect::CloseSelf);
                        proof {
                            assert(eff@ =~= seq![GuideEffect::NewTab, GuideEffect::CloseSelf]);
                        }
                    },
                    _ => {
                        self.current_screen = GuideScreen::Welcome;
                        self.selected_option = 0;
                    },
                }
                (true, eff)
            },
            GuideKey::Up => {
                if self.selected_option > 0 {
                    self.selected_option = self.selected_option - 1;
                }
                (true, eff)
            },
            GuideKey::Down => {
                let max: usize = match self.current_screen {
                    GuideScreen::Welcome => 3,
                    _ => 0,
                };
                if self.selected_option < max {
                    self.selected_option = self.selected_option + 1;
                }
                (true, eff)
            },
            GuideKey::Enter => {
                match self.current_screen {
                    GuideScreen::Welcome => {
                        if self.selected_option == 0 {
                            self.current_screen = GuideScreen::GettingStarted;
                        } else if self.selected_option == 1 {
                            self.current_screen = GuideScreen::KeyBindings;
                        } else if self.selected_option == 2 {
                            self.current_screen = GuideScreen::SessionManager;
                        } else if self.selected_option == 3 {
                            eff.push(GuideEffect::NewTab);
                            eff.push(GuideEffect::CloseSelf);
                            proof {
                                assert(eff@ =~= seq![
                                    GuideEffect::NewTab,
                                    GuideEffect::CloseSelf,
                                ]);
                            }
                        }
                    },
                    GuideScreen::GettingStarted => {
                        if self.selected_option == 0 {
                            self.current_screen = GuideScreen::Welcome;
                            self.selected_option = 0;
                        }
                    },
                    GuideScreen::KeyBindings => {
                        if self.selected_option == 0 {
                            self.current_screen = GuideScreen::Welcome;
                            self.selected_option = 0;
                        }
                    },
                    GuideScreen::SessionManager => {},
                }
                (true, eff)
            },
            GuideKey::Char(c) => {
                let handled: bool;
                if matches!(self.current_screen, GuideScreen::Welcome) {
                    if c == '1' {
                        self.current_screen = GuideScreen::GettingStarted;
                        handled = true;
                    } else if c == '2' {
                        self.current_screen = GuideScreen::KeyBindings;
                        handled = true;
                    } else if c == '3' {
                        self.current_screen = GuideScreen::SessionManager;
                        handled = true;
                    } else if c == '4' {
                        eff.push(GuideEffect::NewTab);
                        eff.push(GuideEffect::CloseSelf);
                        handled = true;
                    } else {
                        handled = false;
                    }
                } else {
                    handled = false;
                }
                (handled, eff)
            },
        }
    }

    /// Which banner the surface shows for its size: the wide art above one
    /// hundred columns, the medium art above fifty, the plain word
    /// otherwise; and the row it starts at.
    pub fn pick_banner(&self) -> (r: (GuideBanner, usize))
        ensures
            self.cols > 100 && self.rows > 12 ==> r == (GuideBanner::Wide, 2usize),
            !(self.cols > 100 && self.rows > 12) && self.cols > 50 && self.rows > 8 ==> r == (
                GuideBanner::Medium,
                2usize,
            ),
            !(self.cols > 100 && self.rows > 12) && !(self.cols > 50 && self.rows > 8) ==> r
                == (GuideBanner::Compact, 3usize),
    {
        if self.cols > 100 && self.rows > 12 {
            (GuideBanner::Wide, 2)
        } else if self.cols > 50 && self.rows > 8 {
            (GuideBanner::Medium, 2)
        } else {
            (GuideBanner::Compact, 3)
        }
    }
}

/// The three banner sizes of the intro surface.
#[derive(Clone, Copy, Debug, PartialEq, Eq, Structural)]
pub enum GuideBanner {
    Wide,
    Medium,
    Compact,
}

} // verus!
