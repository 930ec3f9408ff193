use breeze::controls::{command_for, Action, Command, Input, KeyPress, PointerButton, ViewerState};
use breeze::presentation::Presentation;

fn key(key: KeyPress) -> Input {
    Input::KeyPressed { key, repeat: false }
}

#[test]
fn keys_are_bound_to_commands() {
    assert_eq!(Command::Exit, command_for(key(KeyPress::Escape)));
    assert_eq!(Command::Exit, command_for(key(KeyPress::Character('q'))));
    assert_eq!(Command::ToggleFullscreen, command_for(key(KeyPress::F11)));
    for previous in [
        KeyPress::ArrowLeft,
        KeyPress::ArrowUp,
        KeyPress::Backspace,
        KeyPress::NavigatePrevious,
        KeyPress::Character('h'),
        KeyPress::Character('k'),
        KeyPress::Character('p'),
    ] {
        assert_eq!(Command::Previous, command_for(key(previous)));
    }
    for next in [
        KeyPress::ArrowRight,
        KeyPress::ArrowDown,
        KeyPress::Enter,
        KeyPress::Space,
        KeyPress::NavigateNext,
        KeyPress::Character('l'),
        KeyPress::Character('j'),
        KeyPress::Character('n'),
    ] {
        assert_eq!(Command::Next, command_for(key(next)));
    }
    assert_eq!(Command::InvertColours, command_for(key(KeyPress::Character('i'))));
    assert_eq!(Command::Nothing, command_for(key(KeyPress::Character('Q'))));
    assert_eq!(Command::Nothing, command_for(key(KeyPress::Character('x'))));
    assert_eq!(Command::Nothing, command_for(key(KeyPress::Other)));
}

#[test]
fn held_keys_do_nothing() {
    assert_eq!(
        Command::Nothing,
        command_for(Input::KeyPressed { key: KeyPress::ArrowRight, repeat: true })
    );
    assert_eq!(
        Command::Nothing,
        command_for(Input::KeyPressed { key: KeyPress::Escape, repeat: true })
    );
}

#[test]
fn pointer_and_touch_step_through_the_slides() {
    assert_eq!(Command::Next, command_for(Input::ButtonPressed(PointerButton::Left)));
    assert_eq!(Command::Next, command_for(Input::ButtonPressed(PointerButton::Forward)));
    assert_eq!(Command::Previous, command_for(Input::ButtonPressed(PointerButton::Right)));
    assert_eq!(Command::Previous, command_for(Input::ButtonPressed(PointerButton::Back)));
    assert_eq!(Command::Nothing, command_for(Input::ButtonPressed(PointerButton::Other)));
    assert_eq!(Command::Next, command_for(Input::TouchStarted { on_right_side: true }));
    assert_eq!(Command::Previous, command_for(Input::TouchStarted { on_right_side: false }));
}

#[test]
fn window_events_are_bound_to_commands() {
    assert_eq!(Command::Exit, command_for(Input::CloseRequested));
    assert_eq!(Command::Redraw, command_for(Input::Focused(true)));
    assert_eq!(Command::Nothing, command_for(Input::Focused(false)));
    assert_eq!(Command::Render, command_for(Input::RedrawRequested));
    assert_eq!(Command::Nothing, command_for(Input::Other));
}

#[test]
fn viewer_walks_through_a_presentation() {
    let presentation = Presentation::load("a\n\nb\n").unwrap();
    let mut state = ViewerState::new();
    assert_eq!(ViewerState { current_slide: 0, is_fullscreen: true }, state);
    assert_eq!(Action::Render(0), state.handle(&presentation, Input::RedrawRequested));
    assert_eq!(Action::Nothing, state.handle(&presentation, key(KeyPress::ArrowLeft)));
    assert_eq!(Action::RequestRedraw, state.handle(&presentation, key(KeyPress::ArrowRight)));
    assert_eq!(1, state.current_slide);
    assert_eq!(Action::Render(1), state.handle(&presentation, Input::RedrawRequested));
    assert_eq!(Action::Nothing, state.handle(&presentation, key(KeyPress::Space)));
    assert_eq!(1, state.current_slide);
    assert_eq!(
        Action::RequestRedraw,
        state.handle(&presentation, Input::ButtonPressed(PointerButton::Right))
    );
    assert_eq!(0, state.current_slide);
    assert_eq!(Action::Exit, state.handle(&presentation, key(KeyPress::Character('q'))));
    assert_eq!(ViewerState { current_slide: 0, is_fullscreen: true }, state);
}

#[test]
fn viewer_toggles_fullscreen() {
    let presentation = Presentation::default();
    let mut state = ViewerState::new();
    assert_eq!(Action::SetFullscreen(false), state.handle(&presentation, key(KeyPress::F11)));
    assert!(!state.is_fullscreen);
    assert_eq!(Action::SetFullscreen(true), state.handle(&presentation, key(KeyPress::F11)));
    assert!(state.is_fullscreen);
    assert_eq!(
        Action::InvertColours,
        state.handle(&presentation, key(KeyPress::Character('i')))
    );
    assert_eq!(Action::RequestRedraw, state.handle(&presentation, Input::Focused(true)));
    assert_eq!(Action::Nothing, state.handle(&presentation, Input::Other));
}
