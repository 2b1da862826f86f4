//! What the interface shows for each timer: the three cells of the time, and
//! the buttons with the commands behind them. Drawing is left to the caller.

use crate::duration::format_spec;
use crate::store::{Msg, Oxyclock};
use crate::timer::{State, Timer, TimerView};
use vstd::prelude::*;

verus! {

/// The role of a button, by which its colour is picked.
#[derive(Debug, Clone, Copy, PartialEq, Eq, Structural)]
pub enum CustomButtonType {
    Primary,
    Secondary,
    Success,
}

/// One button: its glyph in the icon font, its role, whether it is drawn
/// small, and the command that a press sends.
#[derive(Debug, Clone, PartialEq, Eq)]
pub struct Control {
    pub icon: char,
    pub button_type: CustomButtonType,
    pub small: bool,
    pub on_press: Msg,
}

/// What is shown for one timer.
#[derive(Debug, Clone, PartialEq, Eq)]
pub struct Face {
    /// The timer shown.
    pub id: u128,
    /// The name under the time.
    pub name: String,
    /// Whether the timer runs: then the cells are read-only.
    pub running: bool,
    /// The hours cell.
    pub hours: String,
    /// The minutes cell.
    pub minutes: String,
    /// The seconds cell.
    pub seconds: String,
    /// The small buttons above the time.
    pub corner: Vec<Control>,
    /// The buttons below the time.
    pub main: Vec<Control>,
}

/// The glyph of the start button.
pub fn start_icon() -> (c: char)
    ensures
        c == '\u{e802}',
{
    '\u{e802}'
}

/// The glyph of the button that adds a timer.
pub fn plus_icon() -> (c: char)
    ensures
        c == '\u{e800}',
{
    '\u{e800}'
}

/// The glyph of the pause button.
pub fn pause_icon() -> (c: char)
    ensures
        c == '\u{e803}',
{
    '\u{e803}'
}

/// The glyph of the reset button.
pub fn reset_icon() -> (c: char)
    ensures
        c == '\u{e801}',
{
    '\u{e801}'
}

/// The glyph of the delete button.
pub fn delete_icon() -> (c: char)
    ensures
        c == '\u{e804}',
{
    '\u{e804}'
}

/// The glyph of the save button.
pub fn save_icon() -> (c: char)
    ensures
        c == '\u{e805}',
{
    '\u{e805}'
}

/// The small buttons of a timer: delete and save while it does not run, none
/// while it runs.
pub open spec fn corner_controls(t: TimerView) -> Seq<Control> {
    if t.state == State::Running {
        Seq::empty()
    } else {
        seq![
            Control {
                icon: '\u{e804}',
                button_type: CustomButtonType::Secondary,
                small: true,
                on_press: Msg::DeleteTimer(t.id),
            },
            Control {
                icon: '\u{e805}',
                button_type: CustomButtonType::Success,
                small: true,
                on_press: Msg::SaveTimer(t.id),
            },
        ]
    }
}

/// The buttons below the time: pause while the timer runs, else reset and
/// start.
pub open spec fn main_controls(t: TimerView) -> Seq<Control> {
    if t.state == State::Running {
        seq![
            Control {
                icon: '\u{e803}',
                button_type: CustomButtonType::Primary,
                small: false,
                on_press: Msg::Stop(t.id),
            },
        ]
    } else {
        seq![
            Control {
                icon: '\u{e801}',
                button_type: CustomButtonType::Secondary,
                small: false,
                on_press: Msg::Reset(t.id),
            },
            Control {
                icon: '\u{e802}',
                button_type: CustomButtonType::Primary,
                small: false,
                on_press: Msg::Start(t.id),
            },
        ]
    }
}

/// The three cells of a timer: the time left while it runs, else its fields
/// as the user left them.
pub open spec fn cells(t: TimerView) -> (Seq<char>, Seq<char>, Seq<char>) {
    if t.state == State::Running {
        format_spec(t.time)
    } else {
        (t.hours, t.minutes, t.seconds)
    }
}

/// Whether `face` shows the timer `t`.
pub open spec fn shows(face: Face, t: TimerView) -> bool {
    &&& face.id == t.id
    &&& face.name@ == t.name
    &&& face.running == (t.state == State::Running)
    &&& (face.hours@, face.minutes@, face.seconds@) == cells(t)
    &&& face.corner@ == corner_controls(t)
    &&& face.main@ == main_controls(t)
}

/// The button of the top bar: it adds a timer.
pub fn top_bar() -> (r: Control)
    ensures
        r == (Control {
            icon: '\u{e800}',
            button_type: CustomButtonType::Primary,
            small: false,
            on_press: Msg::AddTimer,
        }),
{
    Control {
        icon: plus_icon(),
        button_type: CustomButtonType::Primary,
        small: false,
        on_press: Msg::AddTimer,
    }
}

/// What is shown for one timer.
///
/// A running timer shows the time left in read-only cells and a pause
/// button. Any other shows its fields for editing, reset and start below
/// them, delete and save above.
pub fn face(timer: &Timer) -> (r: Face)
    ensures
        shows(r, timer@),
{
    let running = timer.state == State::Running;
    let mut corner: Vec<Control> = Vec::new();
    let mut main: Vec<Control> = Vec::new();
    let (hours, minutes, seconds) = if running {
        main.push(
            Control {
                icon: pause_icon(),
                button_type: CustomButtonType::Primary,
                small: false,
                on_press: Msg::Stop(timer.id),
            },
        );
        timer.time_to_hms_string()
    } else {
        corner.push(
            Control {
                icon: delete_icon(),
                button_type: CustomButtonType::Secondary,
                small: true,
                on_press: Msg::DeleteTimer(timer.id),
            },
        );
        corner.push(
            Control {
                icon: save_icon(),
                button_type: CustomButtonType::Success,
                small: true,
                on_press: Msg::SaveTimer(timer.id),
            },
        );
        main.push(
            Control {
                icon: reset_icon(),
                button_type: CustomButtonType::Secondary,
                small: false,
                on_press: Msg::Reset(timer.id),
            },
        );
        main.push(
            Control {
                icon: start_icon(),
                button_type: CustomButtonType::Primary,
                small: false,
                on_press: Msg::Start(timer.id),
            },
        );
        (timer.hours.clone(), timer.minutes.clone(), timer.seconds.clone())
    };
    assert(corner@ =~= corner_controls(timer@));
    assert(main@ =~= main_controls(timer@));
    Face { id: timer.id, name: timer.name.clone(), running, hours, minutes, seconds, corner, main }
}

/// What is shown for each timer of the collection, in display order.
pub fn faces(state: &Oxyclock) -> (r: Vec<Face>)
    ensures
        r@.len() == state@.len(),
        forall|i: int| 0 <= i < r@.len() ==> shows(#[trigger] r@[i], state@[i]),
{
    let mut out: Vec<Face> = Vec::new();
    let mut i: usize = 0;
    while i < state.timers.len()
        invariant
            i <= state.timers.len(),
            out@.len() == i,
            forall|j: int| 0 <= j < i ==> shows(#[trigger] out@[j], state@[j]),
        decreases state.timers.len() - i,
    {
        out.push(face(&state.timers[i]));
        i = i + 1;
    }
    out
}

} // verus!
