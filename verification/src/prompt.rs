//! The decisions of the terminal prompts: how each key moves the Yes/No
//! choice of a confirmation, how a typed answer is read where no key-driven
//! prompt can be shown, and which frame a spinner shows. Drawing and reading
//! the terminal are left to the program around it.
use vstd::prelude::*;

use crate::text::{chars_of, lowercase, str_eq, string_from_chars, to_lowercase, trim_chars, trim_spec};

verus! {

/// A key as the confirmation prompt sees it.
#[derive(Clone, Copy, Debug)]
pub enum ConfirmKey {
    Left,
    Right,
    Up,
    Down,
    Tab,
    Enter,
    Esc,
    /// A character key, and whether Control was held.
    Char(char, bool),
    /// Any other key.
    Other,
}

/// What the terminal gave the prompt while it waited.
#[derive(Clone, Copy, Debug)]
pub enum ConfirmEvent {
    /// A key was pressed (or repeated).
    Key(ConfirmKey),
    /// Something that is no key press: a release, a resize, the mouse.
    Ignored,
    /// Reading from the terminal failed.
    ReadFailed,
}

/// Where the prompt stands after an event.
#[derive(Clone, Copy, Debug)]
pub enum ConfirmStep {
    /// Still asking, with "Yes" selected or not.
    Asking(bool),
    /// The answer: `true` for "Yes".
    Answered(bool),
}

/// The prompt's step on an event, with "Yes" selected or not before it.
pub open spec fn confirm_step_spec(selected_yes: bool, event: ConfirmEvent) -> ConfirmStep {
    match event {
        ConfirmEvent::Key(key) => match key {
            ConfirmKey::Left | ConfirmKey::Up => ConfirmStep::Asking(true),
            ConfirmKey::Right | ConfirmKey::Down => ConfirmStep::Asking(false),
            ConfirmKey::Tab => ConfirmStep::Asking(!selected_yes),
            ConfirmKey::Enter => ConfirmStep::Answered(selected_yes),
            ConfirmKey::Esc => ConfirmStep::Answered(false),
            ConfirmKey::Char(c, ctrl) => {
                if c == 'y' || c == 'Y' {
                    ConfirmStep::Answered(true)
                } else if c == 'n' || c == 'N' {
                    ConfirmStep::Answered(false)
                } else if c == 'c' && ctrl {
                    ConfirmStep::Answered(false)
                } else {
                    ConfirmStep::Asking(selected_yes)
                }
            },
            ConfirmKey::Other => ConfirmStep::Asking(selected_yes),
        },
        ConfirmEvent::Ignored => ConfirmStep::Asking(selected_yes),
        ConfirmEvent::ReadFailed => ConfirmStep::Answered(selected_yes),
    }
}

/// One step of the Yes/No prompt: the arrow keys move the choice (left and
/// up to "Yes", right and down to "No"), Tab toggles it, Enter accepts it,
/// `y`/`n` answer at once, Esc and Control-C answer "No"; when the
/// terminal cannot be read the current choice stands.
pub fn confirm_step(selected_yes: bool, event: ConfirmEvent) -> (r: ConfirmStep)
    ensures
        r == confirm_step_spec(selected_yes, event),
{
    match event {
        ConfirmEvent::Key(key) => match key {
            ConfirmKey::Left | ConfirmKey::Up => ConfirmStep::Asking(true),
            ConfirmKey::Right | ConfirmKey::Down => ConfirmStep::Asking(false),
            ConfirmKey::Tab => ConfirmStep::Asking(!selected_yes),
            ConfirmKey::Enter => ConfirmStep::Answered(selected_yes),
            ConfirmKey::Esc => ConfirmStep::Answered(false),
            ConfirmKey::Char(c, ctrl) => {
                if c == 'y' || c == 'Y' {
                    ConfirmStep::Answered(true)
                } else if c == 'n' || c == 'N' {
                    ConfirmStep::Answered(false)
                } else if c == 'c' && ctrl {
                    ConfirmStep::Answered(false)
                } else {
                    ConfirmStep::Asking(selected_yes)
                }
            },
            ConfirmKey::Other => ConfirmStep::Asking(selected_yes),
        },
        ConfirmEvent::Ignored => ConfirmStep::Asking(selected_yes),
        ConfirmEvent::ReadFailed => ConfirmStep::Answered(selected_yes),
    }
}

/// Whether a typed answer to a `[Y/n]` question means "Yes": once trimmed
/// and in lower case it is empty, `y` or `yes`.
pub open spec fn typed_yes_spec(line: Seq<char>) -> bool {
    let a = lowercase(trim_spec(line));
    a.len() == 0 || a == "y"@ || a == "yes"@
}

/// Reads a typed answer to a `[Y/n]` question.
pub fn typed_yes(line: &str) -> (r: bool)
    ensures
        r == typed_yes_spec(line@),
{
    let cs = chars_of(line);
    let t = trim_chars(cs.as_slice());
    let ts = string_from_chars(t.as_slice());
    let a = to_lowercase(ts.as_str());
    let ac = chars_of(a.as_str());
    ac.len() == 0 || str_eq(a.as_str(), "y") || str_eq(a.as_str(), "yes")
}

/// The frames of the spinner, in the order they are shown.
pub open spec fn spinner_frames() -> Seq<Seq<char>> {
    seq!["⠋"@, "⠙"@, "⠹"@, "⠸"@, "⠼"@, "⠴"@, "⠦"@, "⠧"@, "⠇"@, "⠏"@]
}

/// The spinner's frame after `count` frames were shown: the frames repeat.
pub fn spinner_frame(count: usize) -> (r: &'static str)
    ensures
        r@ == spinner_frames()[(count % 10) as int],
{
    let k = count % 10;
    if k == 0 {
        "⠋"
    } else if k == 1 {
        "⠙"
    } else if k == 2 {
        "⠹"
    } else if k == 3 {
        "⠸"
    } else if k == 4 {
        "⠼"
    } else if k == 5 {
        "⠴"
    } else if k == 6 {
        "⠦"
    } else if k == 7 {
        "⠧"
    } else if k == 8 {
        "⠇"
    } else {
        "⠏"
    }
}

/// Tab pressed twice leaves the choice as it was, and Enter then accepts
/// the choice shown.
pub proof fn law_tab_twice_then_enter(selected_yes: bool)
    ensures
        confirm_step_spec(selected_yes, ConfirmEvent::Key(ConfirmKey::Tab)) == ConfirmStep::Asking(
            !selected_yes,
        ),
        confirm_step_spec(!selected_yes, ConfirmEvent::Key(ConfirmKey::Tab))
            == ConfirmStep::Asking(selected_yes),
        confirm_step_spec(selected_yes, ConfirmEvent::Key(ConfirmKey::Enter))
            == ConfirmStep::Answered(selected_yes),
{
}

/// `y` answers "Yes" and `n` or Esc answers "No", whatever is selected and
/// whether or not Control is held.
pub proof fn law_shortcuts_answer(selected_yes: bool, ctrl: bool)
    ensures
        confirm_step_spec(selected_yes, ConfirmEvent::Key(ConfirmKey::Char('y', ctrl)))
            == ConfirmStep::Answered(true),
        confirm_step_spec(selected_yes, ConfirmEvent::Key(ConfirmKey::Char('n', ctrl)))
            == ConfirmStep::Answered(false),
        confirm_step_spec(selected_yes, ConfirmEvent::Key(ConfirmKey::Esc))
            == ConfirmStep::Answered(false),
{
}

/// Events that are no key press never answer the question nor move the
/// choice.
pub proof fn law_ignored_events_keep_asking(selected_yes: bool)
    ensures
        confirm_step_spec(selected_yes, ConfirmEvent::Ignored) == ConfirmStep::Asking(selected_yes),
        confirm_step_spec(selected_yes, ConfirmEvent::Key(ConfirmKey::Other))
            == ConfirmStep::Asking(selected_yes),
{
}

} // verus!
