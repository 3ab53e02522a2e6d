//! Delivering a finished transcript.

use vstd::prelude::*;
use crate::config::AppConfig;

verus! {

/// Pause after hiding the window, before typing, in milliseconds.
pub const FOCUS_SWITCH_PAUSE_MS: u64 = 300;

/// How the text reaches the user.
#[derive(Clone, Copy, Debug, PartialEq, Eq, Structural)]
pub enum Delivery {
    /// Put it on the clipboard.
    Clipboard,
    /// Type it into the focused window, pausing `delay_ms` after each chunk.
    Keyboard { delay_ms: u64 },
}

/// The clipboard when the output method is `clipboard`; typing, at the
/// configured speed, for any other value.
pub fn delivery_for(config: &AppConfig) -> (d: Delivery)
    ensures
        config.output_method@ == "clipboard"@ ==> d == Delivery::Clipboard,
        config.output_method@ != "clipboard"@ ==> d == (Delivery::Keyboard {
            delay_ms: config.typing_speed,
        }),
{
    let clipboard = String::from_str("clipboard");
    if config.output_method == clipboard {
        Delivery::Clipboard
    } else {
        Delivery::Keyboard { delay_ms: config.typing_speed }
    }
}

/// What happens to a finished transcript: whether it goes through the
/// grammar clean-up first, and how it is delivered.
#[derive(Clone, Copy, Debug, PartialEq, Eq, Structural)]
pub struct OutputPlan {
    /// Run the grammar clean-up before delivery.
    pub clean_up_grammar: bool,
    /// How the text reaches the user.
    pub delivery: Delivery,
}

/// The clean-up runs when it is enabled in the settings; delivery follows
/// the output method (see `delivery_for`).
pub fn output_plan(config: &AppConfig) -> (p: OutputPlan)
    ensures
        p.clean_up_grammar == config.grammar_enabled,
        config.output_method@ == "clipboard"@ ==> p.delivery == Delivery::Clipboard,
        config.output_method@ != "clipboard"@ ==> p.delivery == (Delivery::Keyboard {
            delay_ms: config.typing_speed,
        }),
{
    OutputPlan { clean_up_grammar: config.grammar_enabled, delivery: delivery_for(config) }
}

/// The text to deliver: the cleaned-up text when a clean-up ran and
/// succeeded (`cleaned` is `Some`), the raw transcript otherwise, so a
/// failed or disabled clean-up falls back to what was heard.
pub fn text_to_deliver(raw: &str, cleaned: Option<String>) -> (t: String)
    ensures
        cleaned matches Some(c) ==> t@ == c@,
        cleaned is None ==> t@ == raw@,
{
    match cleaned {
        Some(c) => c,
        None => String::from_str(raw),
    }
}

} // verus!
