//! The user's settings.

use vstd::prelude::*;

verus! {

/// The settings the application keeps between runs.
#[derive(Clone, Debug)]
pub struct AppConfig {
    /// Name of the speech model, such as `tiny.en`.
    pub active_model: String,
    /// `"type"` to type the text out, `"clipboard"` to copy it.
    pub output_method: String,
    /// Pause after each typed chunk, in milliseconds.
    pub typing_speed: u64,
    /// Translate speech to English instead of transcribing it.
    pub translate: bool,
    /// Spoken language code handed to the speech engine.
    pub language: String,
    /// Global shortcut that starts and stops a recording.
    pub hotkey: String,
    /// Keep the window above all others.
    pub always_on_top: bool,
    /// Send transcripts through the grammar service before output.
    pub grammar_enabled: bool,
    /// Key for the grammar service.
    pub openrouter_api_key: String,
    /// Model that the grammar service runs.
    pub openrouter_model: String,
}

/// The settings of a fresh installation.
pub open spec fn is_default_config(c: AppConfig) -> bool {
    &&& c.active_model@ == "tiny.en"@
    &&& c.output_method@ == "type"@
    &&& c.typing_speed == 20
    &&& !c.translate
    &&& c.language@ == "en"@
    &&& c.hotkey@ == "Control+Shift+Space"@
    &&& c.always_on_top
    &&& !c.grammar_enabled
    &&& c.openrouter_api_key@ == ""@
    &&& c.openrouter_model@ == "openai/gpt-4o-mini"@
}

impl Default for AppConfig {
    fn default() -> (c: Self)
        ensures
            is_default_config(c),
    {
        AppConfig {
            active_model: String::from_str("tiny.en"),
            output_method: String::from_str("type"),
            typing_speed: 20,
            translate: false,
            language: String::from_str("en"),
            hotkey: String::from_str("Control+Shift+Space"),
            always_on_top: true,
            grammar_enabled: false,
            openrouter_api_key: String::from_str(""),
            openrouter_model: String::from_str("openai/gpt-4o-mini"),
        }
    }
}

impl AppConfig {
    /// The settings to run with: the stored ones when they could be read,
    /// the defaults otherwise.
    pub fn from_stored(stored: Option<AppConfig>) -> (c: AppConfig)
        ensures
            stored matches Some(s) ==> c == s,
            stored is None ==> is_default_config(c),
    {
        match stored {
            Some(s) => s,
            None => AppConfig::default(),
        }
    }
}

} // verus!
