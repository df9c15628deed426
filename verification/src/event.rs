use vstd::prelude::*;
use crate::status::{ConnectedAp, FastStatus};

verus! {

/// What reaches the application: user input, a redraw pulse, and reports from the sampler.
#[derive(Debug)]
pub enum Event {
    Quit,
    /// Redraw pulse, so the UI stays live while no sample is arriving.
    Tick,
    /// The AP the adapter is associated with changed (including becoming connected or
    /// disconnected). `generation` numbers the new target.
    FastTarget { target: Option<ConnectedAp>, generation: u64 },
    /// A live RSSI reading. `generation` identifies the target it was taken for.
    FastSample { generation: u64, dbm: i32 },
    FastStatus(FastStatus),
    CycleWindow,
    /// A left-click, in terminal cell coordinates. The application hit-tests it against its
    /// clickable areas, since the terminal reports raw coordinates, not widget targets.
    Click { x: u16, y: u16 },
}

/// What the terminal reports, as far as the application looks at it.
#[derive(Debug, Clone, Copy, PartialEq, Eq)]
pub enum InputEvent {
    /// A key event: the character of a character key (`None` for any other key) and whether
    /// the key went down (rather than being released or repeated).
    Key { ch: Option<char>, press: bool },
    /// A mouse event: whether it is a press of the left button, and the cell it happened in.
    Mouse { left_down: bool, column: u16, row: u16 },
    /// Anything else (focus, paste, resize).
    Other,
}

/// The event a key press asks for: `q` or `Q` quits, `w` or `W` cycles the window width.
pub open spec fn key_request(ch: Option<char>) -> Option<Event> {
    match ch {
        Some(c) => if c == 'q' || c == 'Q' {
            Some(Event::Quit)
        } else if c == 'w' || c == 'W' {
            Some(Event::CycleWindow)
        } else {
            None
        },
        None => None,
    }
}

/// The event a terminal input asks for. Only key presses count (some terminals also report
/// releases and repeats), and only a press of the left mouse button is a click.
pub open spec fn input_request(input: InputEvent) -> Option<Event> {
    match input {
        InputEvent::Key { ch, press } => if press {
            key_request(ch)
        } else {
            None
        },
        InputEvent::Mouse { left_down, column, row } => if left_down {
            Some(Event::Click { x: column, y: row })
        } else {
            None
        },
        InputEvent::Other => None,
    }
}

/// The event a pressed key asks for.
pub fn key_event_for(ch: Option<char>) -> (r: Option<Event>)
    ensures
        r == key_request(ch),
        ch == Some('q') || ch == Some('Q') ==> r == Some(Event::Quit),
        ch == Some('w') || ch == Some('W') ==> r == Some(Event::CycleWindow),
        !(ch == Some('q') || ch == Some('Q') || ch == Some('w') || ch == Some('W')) ==> r is None,
{
    match ch {
        Some(c) => {
            if c == 'q' || c == 'Q' {
                Some(Event::Quit)
            } else if c == 'w' || c == 'W' {
                Some(Event::CycleWindow)
            } else {
                None
            }
        },
        None => None,
    }
}

/// The event a terminal input asks for, if any.
pub fn event_for_input(input: InputEvent) -> (r: Option<Event>)
    ensures
        r == input_request(input),
{
    match input {
        InputEvent::Key { ch, press } => {
            if press {
                key_event_for(ch)
            } else {
                None
            }
        },
        InputEvent::Mouse { left_down, column, row } => {
            if left_down {
                Some(Event::Click { x: column, y: row })
            } else {
                None
            }
        },
        InputEvent::Other => None,
    }
}

/// Only four keys do anything: `q` and `Q` quit, `w` and `W` cycle the window width, and
/// every other key (and every key that is not a character) asks for nothing. A key counts
/// only when pressed; a mouse event is a click exactly when it presses the left button, at the
/// cell where it happened; nothing else asks for anything.
pub proof fn law_only_four_keys_and_the_left_button_do_anything(c: char, press: bool, left_down: bool, column: u16, row: u16)
    ensures
        key_request(Some('q')) == Some(Event::Quit),
        key_request(Some('Q')) == Some(Event::Quit),
        key_request(Some('w')) == Some(Event::CycleWindow),
        key_request(Some('W')) == Some(Event::CycleWindow),
        c != 'q' && c != 'Q' && c != 'w' && c != 'W' ==> key_request(Some(c)) is None,
        key_request(None) is None,
        input_request(InputEvent::Key { ch: Some(c), press }) is Some ==> press && (c == 'q'
            || c == 'Q' || c == 'w' || c == 'W'),
        press ==> input_request(InputEvent::Key { ch: Some(c), press }) == key_request(Some(c)),
        input_request(InputEvent::Key { ch: None, press }) is None,
        input_request(InputEvent::Mouse { left_down, column, row }) == (if left_down {
            Some(Event::Click { x: column, y: row })
        } else {
            None
        }),
        input_request(InputEvent::Other) is None,
{
}

} // verus!
