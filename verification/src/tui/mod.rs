//! The terminal interface: its screens, the data its views show, and the
//! state machine that answers keys and scan events. Drawing is left to the
//! caller.
use vstd::prelude::*;

pub mod state;
pub mod views;

verus! {

/// The screens of the interface, in sidebar order.
#[derive(Debug, Clone, Copy, PartialEq, Eq, Structural)]
pub enum Screen {
    Home,
    Scan,
    Findings,
    History,
    Tools,
    Settings,
}

/// The position of a screen in the sidebar.
pub open spec fn view_index(v: Screen) -> nat {
    match v {
        Screen::Home => 0,
        Screen::Scan => 1,
        Screen::Findings => 2,
        Screen::History => 3,
        Screen::Tools => 4,
        Screen::Settings => 5,
    }
}

/// The screen at a sidebar position; positions past the end give `Home`.
pub open spec fn view_at(i: nat) -> Screen {
    if i == 0 {
        Screen::Home
    } else if i == 1 {
        Screen::Scan
    } else if i == 2 {
        Screen::Findings
    } else if i == 3 {
        Screen::History
    } else if i == 4 {
        Screen::Tools
    } else if i == 5 {
        Screen::Settings
    } else {
        Screen::Home
    }
}

/// The title of a screen.
pub open spec fn view_name(v: Screen) -> Seq<char> {
    match v {
        Screen::Home => "HOME"@,
        Screen::Scan => "SCAN"@,
        Screen::Findings => "FINDINGS"@,
        Screen::History => "HISTORY"@,
        Screen::Tools => "TOOLS"@,
        Screen::Settings => "SETTINGS"@,
    }
}

impl Screen {
    /// The screen's title.
    pub fn name(&self) -> (r: &'static str)
        ensures
            r@ == view_name(*self),
    {
        match self {
            Screen::Home => "HOME",
            Screen::Scan => "SCAN",
            Screen::Findings => "FINDINGS",
            Screen::History => "HISTORY",
            Screen::Tools => "TOOLS",
            Screen::Settings => "SETTINGS",
        }
    }

    /// The screen's sidebar position.
    pub fn idx(&self) -> (r: usize)
        ensures
            r == view_index(*self),
    {
        match self {
            Screen::Home => 0,
            Screen::Scan => 1,
            Screen::Findings => 2,
            Screen::History => 3,
            Screen::Tools => 4,
            Screen::Settings => 5,
        }
    }

    /// The screen at a sidebar position; `Home` past the end.
    pub fn from_idx(i: usize) -> (r: Screen)
        ensures
            r == view_at(i as nat),
    {
        match i {
            0 => Screen::Home,
            1 => Screen::Scan,
            2 => Screen::Findings,
            3 => Screen::History,
            4 => Screen::Tools,
            5 => Screen::Settings,
            _ => Screen::Home,
        }
    }
}

/// A screen is found again at its own position, and every position names
/// a screen whose position it is (or is past the end).
pub proof fn law_view_index_round_trip(v: Screen, i: nat)
    ensures
        view_at(view_index(v)) == v,
        view_index(v) < 6,
        i < 6 ==> view_index(view_at(i)) == i,
        i >= 6 ==> view_at(i) == Screen::Home,
{
}

} // verus!
