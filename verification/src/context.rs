//! The labelled context string handed to the assistant.

use vstd::prelude::*;
use vstd::string::*;

verus! {

/// The character budget of the screen section.
pub const MAX_SCREEN_CHARS: usize = 4000;

/// The character budget of the audio transcript.
pub const MAX_AUDIO_CHARS: usize = 2000;

/// What the user has switched on, and the key passed through to the
/// assistant.
#[derive(Debug, Clone)]
pub struct Settings {
    pub groq_api_key: String,
    pub screen_context: bool,
    pub audio_context: bool,
}

/// The context string together with the key it is sent under.
#[derive(Debug, Clone)]
pub struct AIContext {
    pub content: String,
    pub api_key: String,
}

/// The line that opens every non-empty context.
pub open spec fn header() -> Seq<char> {
    "PC CONTEXT\n"@
}

/// The line that opens the screen section.
pub open spec fn screen_label() -> Seq<char> {
    "SCREEN:\n"@
}

/// The line that opens the audio section.
pub open spec fn audio_label() -> Seq<char> {
    "AUDIO:\n"@
}

/// One section of the context: the label and the text, or nothing where the
/// source is switched off or has no text.
pub open spec fn section(enabled: bool, label: Seq<char>, text: Seq<char>) -> Seq<char> {
    if enabled && text.len() > 0 {
        label + text
    } else {
        Seq::empty()
    }
}

/// The context string: empty where both sources are switched off, else the
/// header followed by the screen section and the audio section.
pub open spec fn context_text(
    screen_enabled: bool,
    audio_enabled: bool,
    screen: Seq<char>,
    audio: Seq<char>,
) -> Seq<char> {
    if !screen_enabled && !audio_enabled {
        Seq::empty()
    } else {
        header() + section(screen_enabled, screen_label(), screen) + section(
            audio_enabled,
            audio_label(),
            audio,
        )
    }
}

impl Default for Settings {
    /// No key, both sources switched on.
    fn default() -> (r: Self)
        ensures
            r.groq_api_key@ == Seq::<char>::empty(),
            r.screen_context,
            r.audio_context,
    {
        Settings { groq_api_key: String::new(), screen_context: true, audio_context: true }
    }
}

/// Builds the context from the screen text and the audio transcript. The
/// text of a source that is switched off is not looked at, so the caller
/// need not produce it. The key is passed through as it is.
pub fn get_context(settings: Settings, screen_context: &str, audio_context: &str) -> (r: AIContext)
    ensures
        r.api_key@ == settings.groq_api_key@,
        r.content@ == context_text(
            settings.screen_context,
            settings.audio_context,
            screen_context@,
            audio_context@,
        ),
        !settings.screen_context && !settings.audio_context ==> r.content@ == Seq::<char>::empty(),
{
    let mut context = String::new();
    if !settings.screen_context && !settings.audio_context {
        return AIContext { content: context, api_key: settings.groq_api_key };
    }
    context.append("PC CONTEXT\n");
    let ghost with_header = context@;
    if settings.screen_context && !screen_context.is_empty() {
        context.append("SCREEN:\n");
        context.append(screen_context);
    }
    let ghost with_screen = context@;
    assert(with_screen =~= header() + section(
        settings.screen_context,
        screen_label(),
        screen_context@,
    ));
    if settings.audio_context && !audio_context.is_empty() {
        context.append("AUDIO:\n");
        context.append(audio_context);
    }
    assert(context@ =~= with_screen + section(
        settings.audio_context,
        audio_label(),
        audio_context@,
    ));
    AIContext { content: context, api_key: settings.groq_api_key }
}

} // verus!
