//! The preferences of the user: what is shown, how playback starts, and
//! which tag bank was used last.
//!
//! The preferences file holds JSON. Files written by earlier versions hold
//! nothing but the name of the last bank; those are still read.

use vstd::prelude::*;
use crate::text::{chars_of, skip_whitespace, text_of, trim, trimmed, trimmed_start};

verus! {

/// What the list of tracks shows and how playback starts.
#[derive(Clone, Copy, Debug, PartialEq, Eq, Structural)]
pub struct Settings {
    pub show_title: bool,
    pub show_authors: bool,
    pub show_genre: bool,
    pub instant_playback: bool,
}

/// The preferences as they are stored.
#[derive(Clone, Debug, PartialEq, Eq)]
pub struct Prefs {
    pub last_used_bank: Option<String>,
    pub settings: Option<Settings>,
}

impl Settings {
    /// The settings of a user who never chose: everything shown, playback
    /// on request.
    pub open spec fn initial() -> Settings {
        Settings { show_title: true, show_authors: true, show_genre: true, instant_playback: false }
    }
}

impl Default for Settings {
    fn default() -> (settings: Settings)
        ensures
            settings == Settings::initial(),
    {
        Settings { show_title: true, show_authors: true, show_genre: true, instant_playback: false }
    }
}

impl Default for Prefs {
    fn default() -> (prefs: Prefs)
        ensures
            prefs.last_used_bank is None,
            prefs.settings is None,
    {
        Prefs { last_used_bank: None, settings: None }
    }
}

/// Whether the content of a preferences file is to be read as JSON:
/// whether a brace is the first thing in it after white space.
pub open spec fn is_json_like(content: Seq<char>) -> bool {
    let text = trimmed_start(content);
    text.len() > 0 && text[0] == '{'
}

/// Tests whether the content of a preferences file is to be read as JSON.
pub fn looks_like_json(content: &str) -> (json: bool)
    ensures
        json == is_json_like(content@),
{
    let chars = chars_of(content);
    let at = skip_whitespace(&chars, 0);
    assert(chars@.skip(0) =~= chars@);
    at < chars.len() && chars[at] == '{'
}

/// The preferences that a file stands for. `content` is what the file
/// holds, `None` where it can not be read; `parsed` is what its content
/// gives when read as JSON, `None` where that fails.
///
/// A file that can not be read gives the preferences of a user who never
/// chose. Content that looks like JSON gives what it parses to, and the
/// same where it does not parse. Any other content is the name of the last
/// bank, without the white space around it.
pub fn load_prefs(content: Option<&str>, parsed: Option<Prefs>) -> (prefs: Prefs)
    ensures
        match content {
            None => prefs.last_used_bank is None && prefs.settings is None,
            Some(text) => if is_json_like(text@) {
                match parsed {
                    Some(p) => prefs == p,
                    None => prefs.last_used_bank is None && prefs.settings is None,
                }
            } else {
                text_of(prefs.last_used_bank) == Some(trimmed(text@)) && prefs.settings is None
            },
        },
{
    match content {
        None => Prefs::default(),
        Some(text) => {
            if looks_like_json(text) {
                match parsed {
                    Some(p) => p,
                    None => Prefs::default(),
                }
            } else {
                Prefs { last_used_bank: Some(trim(text)), settings: None }
            }
        },
    }
}

/// The settings in force: those stored, or the initial ones.
pub fn read_settings(prefs: &Prefs) -> (settings: Settings)
    ensures
        settings == match prefs.settings {
            Some(s) => s,
            None => Settings::initial(),
        },
{
    match prefs.settings {
        Some(s) => s,
        None => Settings::default(),
    }
}

/// The preferences with `settings` in place of the settings stored.
pub fn write_settings(prefs: Prefs, settings: Settings) -> (updated: Prefs)
    ensures
        updated.settings == Some(settings),
        updated.last_used_bank == prefs.last_used_bank,
{
    Prefs { last_used_bank: prefs.last_used_bank, settings: Some(settings) }
}

/// The bank used last, if one is stored.
pub fn get_last_used_bank(prefs: Prefs) -> (bank: Option<String>)
    ensures
        bank == prefs.last_used_bank,
{
    prefs.last_used_bank
}

/// The preferences with `bank` as the bank used last.
pub fn set_last_used_bank(prefs: Prefs, bank: String) -> (updated: Prefs)
    ensures
        updated.last_used_bank == Some(bank),
        updated.settings == prefs.settings,
{
    Prefs { last_used_bank: Some(bank), settings: prefs.settings }
}

} // verus!
