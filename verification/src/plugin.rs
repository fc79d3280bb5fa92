//! The decisions of the media player plugin: which player events lead to
//! which work, and what a new subtitle line becomes.
use vstd::prelude::*;
use crate::text::{owned, str_eq};
use crate::subtitle::{clean_text, clipboard_text, is_blank_mark, is_line_break, without_chars, without_placeholders};

verus! {

/// The property id under which the subtitle text is observed.
pub const SUB_TEXT_ID: u64 = 1;

/// The property id under which the playing file's name is observed.
pub const FILENAME_ID: u64 = 2;

/// What the player reports.
#[derive(Debug)]
pub enum PluginEvent {
    /// The player is shutting down.
    Shutdown,
    /// An observed property changed: its id, its name and its new text.
    PropertyChange { id: u64, name: String, data: Option<String> },
    /// Any other event.
    Other,
}

/// What the plugin does in answer.
#[derive(Debug)]
pub enum PluginAction {
    /// Stop the plugin.
    Stop,
    /// Add the subtitle line, if there is one.
    AddSubtitle(Option<String>),
    /// Forget the subtitles of the previous file.
    ClearSubtitles,
    /// Nothing.
    Nothing,
}

/// Whether `(id, name)` is one of the properties the plugin observes.
pub open spec fn observed(id: u64, name: Seq<char>) -> bool {
    (id == SUB_TEXT_ID && name == "sub-text"@) || (id == FILENAME_ID && name == "filename"@)
}

/// The properties the plugin asks the player to report: the subtitle text
/// and the file name, each under its id.
pub fn observed_properties() -> (r: Vec<(u64, String)>)
    ensures
        r@.len() == 2,
        r@[0].0 == SUB_TEXT_ID && r@[0].1@ == "sub-text"@,
        r@[1].0 == FILENAME_ID && r@[1].1@ == "filename"@,
{
    let mut r: Vec<(u64, String)> = Vec::new();
    r.push((SUB_TEXT_ID, owned("sub-text")));
    r.push((FILENAME_ID, owned("filename")));
    r
}

/// The answer to an event: stop at shutdown, add the new subtitle line
/// when the subtitle text changes, clear the subtitles when the file
/// changes, and nothing otherwise. Only observed properties are reported.
pub fn next_action(event: PluginEvent) -> (r: PluginAction)
    requires
        event matches PluginEvent::PropertyChange { id, name, .. } ==> observed(id, name@),
    ensures
        event is Shutdown ==> r is Stop,
        event is Other ==> r is Nothing,
        event matches PluginEvent::PropertyChange { id, data, .. } ==> (
            if id == SUB_TEXT_ID { r == PluginAction::AddSubtitle(data) } else { r is ClearSubtitles }),
{
    match event {
        PluginEvent::Shutdown => PluginAction::Stop,
        PluginEvent::PropertyChange { id, name, data } => {
            if id == SUB_TEXT_ID && str_eq(name.as_str(), "sub-text") {
                PluginAction::AddSubtitle(data)
            } else {
                PluginAction::ClearSubtitles
            }
        },
        PluginEvent::Other => PluginAction::Nothing,
    }
}

/// A subtitle line as it is kept and as it is copied: the cleaned text and
/// the same on one line; none where nothing is left after cleaning.
pub fn subtitle_entry(text: &str) -> (r: Option<(String, String)>)
    ensures
        ({
            let shown = without_chars(without_placeholders(text@), |c: char| is_blank_mark(c));
            &&& shown.len() == 0 ==> r is None
            &&& shown.len() > 0 ==> (r matches Some(e) && e.0@ == shown
                && e.1@ == without_chars(shown, |c: char| is_line_break(c)))
        }),
{
    let shown = clean_text(text);
    if shown.as_str().unicode_len() == 0 {
        None
    } else {
        let copied = clipboard_text(shown.as_str());
        Some((shown, copied))
    }
}

} // verus!
