//! Terminal events and the progress-screen decisions made on them.

use vstd::prelude::*;

verus! {

/// A key or terminal event, as the wizard and screens consume it.
#[derive(Clone, Copy, Debug, PartialEq, Eq, Structural)]
pub enum TuiEvent {
    Up,
    Down,
    Left,
    Right,
    Enter,
    Escape,
    Tab,
    Char(char),
    Backspace,
    Delete,
    Home,
    End,
    CtrlC,
    Resize(u16, u16),
    /// No event arrived before the poll timed out.
    Idle,
}

/// Whether an event cancels processing on the progress screen: Esc, `q`
/// or `Q`.
pub open spec fn is_cancel_event_spec(event: TuiEvent) -> bool {
    ||| event == TuiEvent::Escape
    ||| event == TuiEvent::Char('q')
    ||| event == TuiEvent::Char('Q')
}

/// Progress-screen cancel decision.
pub fn is_cancel_event(event: TuiEvent) -> (r: bool)
    ensures
        r == is_cancel_event_spec(event),
{
    match event {
        TuiEvent::Escape => true,
        TuiEvent::Char(c) => c == 'q' || c == 'Q',
        _ => false,
    }
}

/// Render throttling on the progress screen: with a positive interval only
/// every `throttle_interval`-th frame is drawn; an interval of zero draws
/// every frame.
pub fn should_skip_render(frame_index: u64, throttle_interval: u64) -> (r: bool)
    ensures
        r == (throttle_interval > 0 && frame_index % throttle_interval != 0),
{
    throttle_interval > 0 && frame_index % throttle_interval != 0
}

} // verus!
