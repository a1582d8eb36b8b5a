//! The path navigator and reducer: owns the committed working
//! directory, the path as typed, the listing, and the sidebar flag;
//! consumes one user intent at a time and names the outside effect to
//! perform.  Outcomes of effects are applied through the `apply_*` and
//! `decide_*` methods, strictly in intent order; a finished read whose
//! target no longer matches the pending path is dropped.

use vstd::prelude::*;
use crate::config::Bookmark;
use crate::config::Config;
use crate::listing::Entry;
use crate::listing::build_listing;
use crate::listing::kept_of;
use crate::listing::ordered;
use crate::listing::raw_view;
use crate::listing::views;
use crate::notice::Notice;
use crate::paths::name_of;
use crate::paths::name_spec;
use crate::paths::parent_of;
use crate::paths::parent_spec;

verus! {

/// An outside effect the surrounding program must perform; its outcome
/// is fed back through the matching `apply_*` or `decide_*` method.
pub enum Action {
    /// Enumerate the directory at the path and report the rows back.
    Read(String),
    /// Ask the user whether to delete: the path, its derived display
    /// name for the question text, and whether the removal would be
    /// recursive.
    ConfirmDelete(String, String, bool),
    /// Remove the path, recursively when the flag is set.  Issued only
    /// after an affirmative confirmation.
    Delete(String, bool),
    /// Hand the path to the platform's default application, detached.
    Launch(String),
}

/// One user intent from the presentation layer.
pub enum Intent {
    /// The address field's text changed to this value.
    PathTyped(String),
    /// The typed path was submitted.
    PathSubmitted,
    /// Go to the parent of the working directory.
    Up,
    /// Enter the directory at this path.
    Enter(String),
    /// Open the file at this path with the default application.
    Open(String),
    /// Delete the file at this path, after confirmation.
    DeleteFile(String),
    /// Recursively delete the directory at this path, after
    /// confirmation.
    DeleteDir(String),
    /// Follow this bookmark.
    Jump(Bookmark),
    /// Show or hide the sidebar.
    ToggleSidebar,
}

/// What the browser shows: the committed working directory with its
/// listing, the path as currently typed, the configuration, and the
/// sidebar flag.
pub struct Browser {
    pub config: Config,
    pub current_path: String,
    pub pending_path: String,
    pub listing: Vec<Entry>,
    pub sidebar_open: bool,
}

/// The committed pair and the rest of the state are untouched: only
/// the pending path may differ between `pre` and `post`.
pub open spec fn holds_display(pre: Browser, post: Browser) -> bool {
    &&& post.current_path == pre.current_path
    &&& post.listing == pre.listing
    &&& post.config == pre.config
    &&& post.sidebar_open == pre.sidebar_open
}

/// What a committed listing is for the raw rows it was read from: the
/// kept rows exactly, in listing order.
pub open spec fn listing_matches(
    raw: Seq<(Seq<char>, bool)>,
    show_hidden: bool,
    out: Seq<crate::listing::EntryV>,
) -> bool {
    &&& out.to_multiset() == kept_of(raw, show_hidden).to_multiset()
    &&& out.len() == kept_of(raw, show_hidden).len()
    &&& ordered(out)
}

impl Browser {
    /// A browser opened on `start_path` with the given configuration:
    /// the path is both committed and pending, nothing is listed yet,
    /// and the sidebar is shown.
    pub fn new(config: Config, start_path: String) -> (b: Browser)
        ensures
            b.config == config,
            b.current_path@ == start_path@,
            b.pending_path@ == start_path@,
            b.listing@.len() == 0,
            b.sidebar_open,
    {
        let pending = start_path.clone();
        Browser {
            config,
            current_path: start_path,
            pending_path: pending,
            listing: Vec::new(),
            sidebar_open: true,
        }
    }

    /// Stores the typed path as pending, unvalidated and uncommitted;
    /// nothing is read and nothing shown changes yet.
    pub fn set_path(&mut self, raw: String)
        ensures
            final (self).pending_path@ == raw@,
            holds_display(*old(self), *final (self)),
    {
        self.pending_path = raw;
    }

    /// Asks for the pending path to be read; the shown state does not
    /// change until the outcome arrives at `apply_read`.
    pub fn navigate(&self) -> (a: Action)
        ensures
            a matches Action::Read(t) && t@ == self.pending_path@,
    {
        Action::Read(self.pending_path.clone())
    }

    /// Moves the pending path to the parent of the committed working
    /// directory — the root stays the root — and asks for a read.
    pub fn up(&mut self) -> (a: Action)
        ensures
            final (self).pending_path@ == parent_spec(old(self).current_path@),
            a matches Action::Read(t) && t@ == parent_spec(old(self).current_path@),
            holds_display(*old(self), *final (self)),
    {
        let p = parent_of(self.current_path.as_str());
        self.pending_path = p;
        self.navigate()
    }

    /// Makes `target` pending and asks for it to be read: entering a
    /// directory and submitting a typed path both come here.
    pub fn jump_to(&mut self, target: String) -> (a: Action)
        ensures
            final (self).pending_path@ == target@,
            a matches Action::Read(t) && t@ == target@,
            holds_display(*old(self), *final (self)),
    {
        self.pending_path = target;
        self.navigate()
    }

    /// Follows a bookmark: its resolved target becomes pending and is
    /// read.
    pub fn jump_to_bookmark(&mut self, b: &Bookmark) -> (a: Action)
        ensures
            final (self).pending_path@ == b.path@,
            a matches Action::Read(t) && t@ == b.path@,
            holds_display(*old(self), *final (self)),
    {
        let t = b.resolve();
        self.jump_to(t)
    }

    /// Flips the sidebar; nothing else changes and nothing can fail.
    pub fn toggle_sidebar(&mut self)
        ensures
            final (self).sidebar_open == !old(self).sidebar_open,
            final (self).current_path == old(self).current_path,
            final (self).pending_path == old(self).pending_path,
            final (self).listing == old(self).listing,
            final (self).config == old(self).config,
    {
        self.sidebar_open = !self.sidebar_open;
    }

    /// Resets the pending path to the committed working directory and
    /// asks for it to be read again, so the finished read is not
    /// dropped as stale.
    pub fn relist(&mut self) -> (a: Action)
        ensures
            final (self).pending_path@ == old(self).current_path@,
            a matches Action::Read(t) && t@ == old(self).current_path@,
            holds_display(*old(self), *final (self)),
    {
        self.pending_path = self.current_path.clone();
        self.navigate()
    }

    /// Applies a finished directory read.  A stale read — the target no
    /// longer equals the pending path — is dropped silently.  A failed
    /// read leaves the committed path and its listing untouched and
    /// surfaces exactly one notification.  A successful read, even an
    /// empty one, replaces the listing and commits the path.
    pub fn apply_read(&mut self, target: String, outcome: Option<Vec<(String, bool)>>) -> (n:
        Option<Notice>)
        ensures
            target@ != old(self).pending_path@ ==> *final (self) == *old(self) && n is None,
            target@ == old(self).pending_path@ && outcome is None ==> *final (self) == *old(self)
                && (n matches Some(Notice::ReadFailed(p)) && p@ == target@),
            target@ == old(self).pending_path@ ==> (outcome matches Some(rows) ==> {
                &&& final (self).current_path@ == target@
                &&& final (self).pending_path == old(self).pending_path
                &&& listing_matches(
                    raw_view(rows@),
                    old(self).config.show_hidden_files,
                    views(final (self).listing@),
                )
                &&& final (self).config == old(self).config
                &&& final (self).sidebar_open == old(self).sidebar_open
                &&& n is None
            }),
            target@ == old(self).pending_path@ ==> (outcome matches Some(rows) ==> (rows@.len()
                == 0 ==> final (self).listing@.len() == 0)),
    {
        if !(target == self.pending_path) {
            return None;
        }
        match outcome {
            None => Some(Notice::ReadFailed(target)),
            Some(rows) => {
                proof {
                    if rows@.len() == 0 {
                        assert(raw_view(rows@).len() == 0);
                    }
                }
                let shown = build_listing(rows, self.config.show_hidden_files);
                proof {
                    assert(views(shown@).len() == shown@.len());
                }
                self.listing = shown;
                self.current_path = target;
                None
            },
        }
    }

    /// Asks for confirmation before deleting the file at `path`; the
    /// question names the entry by its derived display name.  Nothing
    /// is removed here.
    pub fn request_delete_file(&self, path: String) -> (a: Action)
        ensures
            a matches Action::ConfirmDelete(p, name, recursive) && p@ == path@ && name@
                == name_spec(path@) && !recursive,
    {
        let name = name_of(path.as_str());
        Action::ConfirmDelete(path, name, false)
    }

    /// Asks for confirmation before recursively deleting the directory
    /// at `path`; the question names the entry and says the removal
    /// takes its contents too.  Nothing is removed here.
    pub fn request_delete_dir(&self, path: String) -> (a: Action)
        ensures
            a matches Action::ConfirmDelete(p, name, recursive) && p@ == path@ && name@
                == name_spec(path@) && recursive,
    {
        let name = name_of(path.as_str());
        Action::ConfirmDelete(path, name, true)
    }

    /// Applies the confirmation dialog's outcome.  A removal is asked
    /// for exactly on an affirmative answer — never on a declined one,
    /// and never when the dialog itself could not run, which counts as
    /// declined and surfaces a notification.  On the non-affirmative
    /// outcomes the working directory is read again at once; after an
    /// affirmative one the read follows the removal.
    pub fn decide_confirmation(&mut self, path: String, recursive: bool, answer: Option<bool>) -> (r:
        (Option<Notice>, Action))
        ensures
            (r.1 matches Action::Delete(p, rec) && p@ == path@ && rec == recursive) <==> answer
                == Some(true),
            answer == Some(true) ==> *final (self) == *old(self) && r.0 is None,
            answer != Some(true) ==> final (self).pending_path@ == old(self).current_path@ && (r.1
                matches Action::Read(t) && t@ == old(self).current_path@) && holds_display(
                *old(self),
                *final (self),
            ),
            answer == Some(false) ==> r.0 is None,
            answer is None ==> (r.0 matches Some(Notice::ConfirmUnavailable(p)) && p@ == path@),
    {
        match answer {
            Some(true) => (None, Action::Delete(path, recursive)),
            Some(false) => {
                let a = self.relist();
                (None, a)
            },
            None => {
                let a = self.relist();
                (Some(Notice::ConfirmUnavailable(path)), a)
            },
        }
    }

    /// Applies a finished removal: a failure surfaces one notification
    /// and nothing more; the working directory is read again either
    /// way, so the listing reflects what actually happened.
    pub fn apply_delete_result(&mut self, path: String, ok: bool) -> (r: (Option<Notice>, Action))
        ensures
            ok ==> r.0 is None,
            !ok ==> (r.0 matches Some(Notice::DeleteFailed(p)) && p@ == path@),
            final (self).pending_path@ == old(self).current_path@,
            r.1 matches Action::Read(t) && t@ == old(self).current_path@,
            holds_display(*old(self), *final (self)),
    {
        let a = self.relist();
        if ok {
            (None, a)
        } else {
            (Some(Notice::DeleteFailed(path)), a)
        }
    }

    /// Asks for `path` to be handed to the platform's default
    /// application, detached; the core does not wait for it.
    pub fn open_entry(&self, path: String) -> (a: Action)
        ensures
            a matches Action::Launch(p) && p@ == path@,
    {
        Action::Launch(path)
    }

    /// Applies the launcher's outcome: a failure surfaces one
    /// notification and never anything worse.
    pub fn apply_launch_result(&self, path: String, ok: bool) -> (n: Option<Notice>)
        ensures
            ok <==> n is None,
            !ok ==> (n matches Some(Notice::LaunchFailed(p)) && p@ == path@),
    {
        if ok {
            None
        } else {
            Some(Notice::LaunchFailed(path))
        }
    }

    /// The reducer: consumes one user intent, updates the state, and
    /// names the outside effect to perform, if any.
    pub fn update(&mut self, intent: Intent) -> (a: Option<Action>)
        ensures
            match intent {
                Intent::PathTyped(s) => final (self).pending_path@ == s@ && holds_display(
                    *old(self),
                    *final (self),
                ) && a is None,
                Intent::PathSubmitted => *final (self) == *old(self) && (a matches Some(
                    Action::Read(t),
                ) && t@ == old(self).pending_path@),
                Intent::Up => final (self).pending_path@ == parent_spec(old(self).current_path@)
                    && holds_display(*old(self), *final (self)) && (a matches Some(Action::Read(t))
                    && t@ == parent_spec(old(self).current_path@)),
                Intent::Enter(p) => final (self).pending_path@ == p@ && holds_display(
                    *old(self),
                    *final (self),
                ) && (a matches Some(Action::Read(t)) && t@ == p@),
                Intent::Open(p) => *final (self) == *old(self) && (a matches Some(Action::Launch(q))
                    && q@ == p@),
                Intent::DeleteFile(p) => *final (self) == *old(self) && (a matches Some(
                    Action::ConfirmDelete(q, name, rec),
                ) && q@ == p@ && name@ == name_spec(p@) && !rec),
                Intent::DeleteDir(p) => *final (self) == *old(self) && (a matches Some(
                    Action::ConfirmDelete(q, name, rec),
                ) && q@ == p@ && name@ == name_spec(p@) && rec),
                Intent::Jump(b) => final (self).pending_path@ == b.path@ && holds_display(
                    *old(self),
                    *final (self),
                ) && (a matches Some(Action::Read(t)) && t@ == b.path@),
                Intent::ToggleSidebar => final (self).sidebar_open == !old(self).sidebar_open
                    && final (self).current_path == old(self).current_path
                    && final (self).pending_path == old(self).pending_path
                    && final (self).listing == old(self).listing
                    && final (self).config == old(self).config
                    && a is None,
            },
    {
        match intent {
            Intent::PathTyped(s) => {
                self.set_path(s);
                None
            },
            Intent::PathSubmitted => Some(self.navigate()),
            Intent::Up => Some(self.up()),
            Intent::Enter(p) => Some(self.jump_to(p)),
            Intent::Open(p) => Some(self.open_entry(p)),
            Intent::DeleteFile(p) => Some(self.request_delete_file(p)),
            Intent::DeleteDir(p) => Some(self.request_delete_dir(p)),
            Intent::Jump(b) => Some(self.jump_to_bookmark(&b)),
            Intent::ToggleSidebar => {
                self.toggle_sidebar();
                None
            },
        }
    }
}

} // verus!
