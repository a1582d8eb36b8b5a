//! The startup configuration and the bookmark registry: the theme
//! name, the hidden-file default, and the configured shortcuts, kept
//! in file order and read-only after load.

use vstd::prelude::*;
use crate::notice::Notice;

verus! {

/// A named shortcut to a filesystem path, loaded from configuration
/// and immutable afterwards.
pub struct Bookmark {
    pub title: String,
    pub path: String,
}

impl Bookmark {
    /// The navigation target of this bookmark: its stored path,
    /// verbatim.  Whether the target exists is not checked here; a bad
    /// target is handled by the navigator's failed-read policy.
    pub fn resolve(&self) -> (r: String)
        ensures
            r@ == self.path@,
    {
        self.path.clone()
    }
}

/// What startup loaded: a theme name, whether hidden files are shown,
/// and the bookmarks in file order.
pub struct Config {
    pub theme: String,
    pub show_hidden_files: bool,
    pub bookmarks: Vec<Bookmark>,
}

impl Config {
    /// The configuration used when none can be read: the unnamed
    /// default theme, hidden files off, no bookmarks.
    pub fn fallback() -> (c: Config)
        ensures
            c.theme@ == Seq::<char>::empty(),
            !c.show_hidden_files,
            c.bookmarks@ == Seq::<Bookmark>::empty(),
    {
        Config { theme: String::new(), show_hidden_files: false, bookmarks: Vec::new() }
    }
}

/// Settles what a configuration load produced: a parsed configuration
/// is taken as it is; a missing or malformed one falls back to the
/// defaults and surfaces exactly one warning.  Startup never fails on
/// the configuration.
pub fn from_load(parsed: Option<Config>) -> (r: (Config, Option<Notice>))
    ensures
        parsed matches Some(c) ==> r.0 == c && r.1 is None,
        parsed is None ==> {
            &&& r.0.theme@ == Seq::<char>::empty()
            &&& !r.0.show_hidden_files
            &&& r.0.bookmarks@ == Seq::<Bookmark>::empty()
            &&& r.1 == Some(Notice::ConfigInvalid)
        },
{
    match parsed {
        Some(c) => (c, None),
        None => (Config::fallback(), Some(Notice::ConfigInvalid)),
    }
}

} // verus!
