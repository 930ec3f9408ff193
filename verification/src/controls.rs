//! What the viewer does on each input: the decisions of its event loop.
//!
//! The loop itself, which waits for input and carries the actions out, is
//! the program's; it hands every input here and gets back what to do.

use vstd::prelude::*;
use crate::presentation::Presentation;
use crate::slides::{change_slides, neighbour};

verus! {

/// A key, as far as the viewer tells keys apart.
#[derive(Clone, Copy, Debug, PartialEq, Eq, Structural)]
pub enum KeyPress {
    Escape,
    F11,
    ArrowLeft,
    ArrowUp,
    Backspace,
    NavigatePrevious,
    ArrowRight,
    ArrowDown,
    Enter,
    Space,
    NavigateNext,
    /// A key that types one character, modifiers not applied.
    Character(char),
    Other,
}

/// A button of a pointing device.
#[derive(Clone, Copy, Debug, PartialEq, Eq, Structural)]
pub enum PointerButton {
    Left,
    Right,
    Back,
    Forward,
    Other,
}

/// Something that happened to the window.
#[derive(Clone, Copy, Debug, PartialEq, Eq, Structural)]
pub enum Input {
    CloseRequested,
    /// The window gained (`true`) or lost the focus.
    Focused(bool),
    RedrawRequested,
    ButtonPressed(PointerButton),
    /// A touch began, on the right half of the window or on the left.
    TouchStarted { on_right_side: bool },
    /// A key went down; `repeat` tells a key that is held from a fresh press.
    KeyPressed { key: KeyPress, repeat: bool },
    Other,
}

/// What an input asks for.
#[derive(Clone, Copy, Debug, PartialEq, Eq, Structural)]
pub enum Command {
    Exit,
    Redraw,
    Render,
    Previous,
    Next,
    ToggleFullscreen,
    InvertColours,
    Nothing,
}

/// What the program is to do next.
#[derive(Clone, Copy, Debug, PartialEq, Eq, Structural)]
pub enum Action {
    /// Leave the event loop.
    Exit,
    /// Ask the window for a redraw.
    RequestRedraw,
    /// Draw the slide with this index.
    Render(usize),
    /// Enter (`true`) or leave fullscreen.
    SetFullscreen(bool),
    /// Swap the foreground and background colours.
    InvertColours,
    Nothing,
}

/// What the viewer remembers between two inputs.
#[derive(Clone, Copy, Debug, PartialEq, Eq, Structural)]
pub struct ViewerState {
    /// The index of the slide on show.
    pub current_slide: usize,
    pub is_fullscreen: bool,
}

/// The command bound to a key that was freshly pressed.
pub open spec fn key_command(key: KeyPress) -> Command {
    match key {
        KeyPress::Escape => Command::Exit,
        KeyPress::F11 => Command::ToggleFullscreen,
        KeyPress::ArrowLeft
        | KeyPress::ArrowUp
        | KeyPress::Backspace
        | KeyPress::NavigatePrevious => Command::Previous,
        KeyPress::ArrowRight
        | KeyPress::ArrowDown
        | KeyPress::Enter
        | KeyPress::Space
        | KeyPress::NavigateNext => Command::Next,
        KeyPress::Character(c) => if c == 'q' {
            Command::Exit
        } else if c == 'h' || c == 'k' || c == 'p' {
            Command::Previous
        } else if c == 'l' || c == 'j' || c == 'n' {
            Command::Next
        } else if c == 'i' {
            Command::InvertColours
        } else {
            Command::Nothing
        },
        KeyPress::Other => Command::Nothing,
    }
}

/// The command that an input asks for. Keys that repeat while held, and
/// everything the viewer has no use for, ask for nothing.
pub open spec fn command_of(input: Input) -> Command {
    match input {
        Input::CloseRequested => Command::Exit,
        Input::Focused(gained) => if gained {
            Command::Redraw
        } else {
            Command::Nothing
        },
        Input::RedrawRequested => Command::Render,
        Input::ButtonPressed(button) => match button {
            PointerButton::Right | PointerButton::Back => Command::Previous,
            PointerButton::Left | PointerButton::Forward => Command::Next,
            PointerButton::Other => Command::Nothing,
        },
        Input::TouchStarted { on_right_side } => if on_right_side {
            Command::Next
        } else {
            Command::Previous
        },
        Input::KeyPressed { key, repeat } => if repeat {
            Command::Nothing
        } else {
            key_command(key)
        },
        Input::Other => Command::Nothing,
    }
}

/// The state after `command`, and the action that carries it out, in a
/// presentation of `count` slides.
pub open spec fn outcome_of(state: ViewerState, count: int, command: Command) -> (
    ViewerState,
    Action,
) {
    match command {
        Command::Exit => (state, Action::Exit),
        Command::Redraw => (state, Action::RequestRedraw),
        Command::Render => (state, Action::Render(state.current_slide)),
        Command::Previous | Command::Next => {
            let target = neighbour(count, state.current_slide as int, command == Command::Next);
            if target == state.current_slide {
                (state, Action::Nothing)
            } else {
                (
                    ViewerState { current_slide: target as usize, ..state },
                    Action::RequestRedraw,
                )
            }
        },
        Command::ToggleFullscreen => (
            ViewerState { is_fullscreen: !state.is_fullscreen, ..state },
            Action::SetFullscreen(!state.is_fullscreen),
        ),
        Command::InvertColours => (state, Action::InvertColours),
        Command::Nothing => (state, Action::Nothing),
    }
}

fn command_for_key(key: KeyPress) -> (command: Command)
    ensures
        command == key_command(key),
{
    match key {
        KeyPress::Escape => Command::Exit,
        KeyPress::F11 => Command::ToggleFullscreen,
        KeyPress::ArrowLeft
        | KeyPress::ArrowUp
        | KeyPress::Backspace
        | KeyPress::NavigatePrevious => Command::Previous,
        KeyPress::ArrowRight
        | KeyPress::ArrowDown
        | KeyPress::Enter
        | KeyPress::Space
        | KeyPress::NavigateNext => Command::Next,
        KeyPress::Character(c) => {
            if c == 'q' {
                Command::Exit
            } else if c == 'h' || c == 'k' || c == 'p' {
                Command::Previous
            } else if c == 'l' || c == 'j' || c == 'n' {
                Command::Next
            } else if c == 'i' {
                Command::InvertColours
            } else {
                Command::Nothing
            }
        },
        KeyPress::Other => Command::Nothing,
    }
}

/// Tells which command an input asks for.
pub fn command_for(input: Input) -> (command: Command)
    ensures
        command == command_of(input),
{
    match input {
        Input::CloseRequested => Command::Exit,
        Input::Focused(gained) => {
            if gained {
                Command::Redraw
            } else {
                Command::Nothing
            }
        },
        Input::RedrawRequested => Command::Render,
        Input::ButtonPressed(button) => match button {
            PointerButton::Right | PointerButton::Back => Command::Previous,
            PointerButton::Left | PointerButton::Forward => Command::Next,
            PointerButton::Other => Command::Nothing,
        },
        Input::TouchStarted { on_right_side } => {
            if on_right_side {
                Command::Next
            } else {
                Command::Previous
            }
        },
        Input::KeyPressed { key, repeat } => {
            if repeat {
                Command::Nothing
            } else {
                command_for_key(key)
            }
        },
        Input::Other => Command::Nothing,
    }
}

impl ViewerState {
    /// The state in which a presentation starts: its first slide, in
    /// fullscreen.
    pub fn new() -> (state: ViewerState)
        ensures
            state == (ViewerState { current_slide: 0, is_fullscreen: true }),
    {
        ViewerState { current_slide: 0, is_fullscreen: true }
    }

    /// The slide on show is one of the presentation's.
    pub open spec fn shows(self, presentation: Presentation) -> bool {
        self.current_slide < presentation.slides@.len()
    }

    /// Takes one input: updates the state and tells the program what to do.
    pub fn handle(&mut self, presentation: &Presentation, input: Input) -> (action: Action)
        requires
            old(self).shows(*presentation),
        ensures
            (*final(self), action) == outcome_of(
                *old(self),
                presentation.slides@.len() as int,
                command_of(input),
            ),
            final(self).shows(*presentation),
            action matches Action::Render(index) ==> index < presentation.slides@.len(),
    {
        match command_for(input) {
            Command::Exit => Action::Exit,
            Command::Redraw => Action::RequestRedraw,
            Command::Render => Action::Render(self.current_slide),
            Command::Previous => {
                if change_slides(presentation, &mut self.current_slide, false) {
                    Action::RequestRedraw
                } else {
                    Action::Nothing
                }
            },
            Command::Next => {
                if change_slides(presentation, &mut self.current_slide, true) {
                    Action::RequestRedraw
                } else {
                    Action::Nothing
                }
            },
            Command::ToggleFullscreen => {
                self.is_fullscreen = !self.is_fullscreen;
                Action::SetFullscreen(self.is_fullscreen)
            },
            Command::InvertColours => Action::InvertColours,
            Command::Nothing => Action::Nothing,
        }
    }
}

} // verus!
