use vstd::prelude::*;

use super::ui_state::{CurrentScreen, UiState};

verus! {

/// How a piece of the navigation line is shown.
#[derive(Debug, Clone, Copy, PartialEq, Eq, Structural)]
pub enum HintStyle {
    /// Plain text.
    Plain,
    /// A key to press (blue, bold).
    Key,
    /// A warning (red).
    Alert,
}

/// A piece of the navigation line under the chat panel.
pub struct HintSpan {
    pub text: String,
    pub style: HintStyle,
}

/// The navigation line for a screen, piece by piece.
pub open spec fn navigation_hints(screen: CurrentScreen) -> Seq<(Seq<char>, HintStyle)> {
    match screen {
        CurrentScreen::Main => seq![
            (" Send message "@, HintStyle::Plain),
            ("<ENTER>"@, HintStyle::Key),
            (" Chat mode "@, HintStyle::Plain),
            ("<C>"@, HintStyle::Key),
            (" Quit "@, HintStyle::Plain),
            ("<Q>"@, HintStyle::Key),
        ],
        CurrentScreen::Chatting => seq![
            (" Go back "@, HintStyle::Plain),
            ("<ESC>"@, HintStyle::Key),
            (" Send message "@, HintStyle::Plain),
            ("<Enter>"@, HintStyle::Key),
            (" Quit "@, HintStyle::Plain),
            ("<Q>"@, HintStyle::Key),
        ],
        CurrentScreen::Exiting => seq![("Exiting..."@, HintStyle::Alert)],
    }
}

/// The pieces `spans` show the hints `hints`.
pub open spec fn spans_show(spans: Seq<HintSpan>, hints: Seq<(Seq<char>, HintStyle)>) -> bool {
    &&& spans.len() == hints.len()
    &&& forall|i: int|
        0 <= i < spans.len() ==> (#[trigger] spans[i]).text@ == hints[i].0 && spans[i].style
            == hints[i].1
}

fn span(text: &str, style: HintStyle) -> (s: HintSpan)
    ensures
        s.text@ == text@,
        s.style == style,
{
    HintSpan { text: String::from_str(text), style }
}

/// The navigation line for the screen the UI shows.
pub fn navigation_instructions(ui_state: &UiState) -> (spans: Vec<HintSpan>)
    ensures
        spans_show(spans@, navigation_hints(ui_state.current_screen)),
{
    let mut spans: Vec<HintSpan> = Vec::new();
    match ui_state.current_screen {
        CurrentScreen::Main => {
            spans.push(span(" Send message ", HintStyle::Plain));
            spans.push(span("<ENTER>", HintStyle::Key));
            spans.push(span(" Chat mode ", HintStyle::Plain));
            spans.push(span("<C>", HintStyle::Key));
            spans.push(span(" Quit ", HintStyle::Plain));
            spans.push(span("<Q>", HintStyle::Key));
        },
        CurrentScreen::Chatting => {
            spans.push(span(" Go back ", HintStyle::Plain));
            spans.push(span("<ESC>", HintStyle::Key));
            spans.push(span(" Send message ", HintStyle::Plain));
            spans.push(span("<Enter>", HintStyle::Key));
            spans.push(span(" Quit ", HintStyle::Plain));
            spans.push(span("<Q>", HintStyle::Key));
        },
        CurrentScreen::Exiting => {
            spans.push(span("Exiting...", HintStyle::Alert));
        },
    }
    spans
}

} // verus!
