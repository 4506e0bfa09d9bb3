use vstd::prelude::*;

use crate::error::I18nError;
use crate::shared::{replace_table, SharedTable};
use crate::structure::{expected_kind, load_structure, FileStructure};

verus! {

/// Delay between a change notification and the reload it triggers, so that
/// the duplicate notifications some platforms send for one write collapse.
pub const DEBOUNCE_MILLIS: u64 = 10;

/// A strategy that keeps a locale's table up to date.
///
/// Implement it to feed a locale from a source of your own: `set_data` hands
/// over the table to update, then `watch` starts the work.
pub trait WatchProvider: Send + Sync {
    /// Begins whatever observation the provider performs.
    fn watch(&mut self) -> (r: Result<(), I18nError>);

    /// Redirects future updates to `data`.
    fn set_data(&mut self, data: SharedTable) -> (r: Result<(), I18nError>);
}

/// For data that never changes after loading: both operations do nothing.
pub struct StaticFileProvider {}

impl WatchProvider for StaticFileProvider {
    fn watch(&mut self) -> (r: Result<(), I18nError>) {
        Ok(())
    }

    fn set_data(&mut self, _data: SharedTable) -> (r: Result<(), I18nError>) {
        Ok(())
    }
}

/// What went wrong when a file observer was being set up.
pub enum WatchFailure {
    /// A fault described only by a message.
    Generic(String),
    /// An I/O fault, with its description.
    Io(String),
    /// The path to observe does not exist.
    PathNotFound,
    /// The observer to remove was not registered.
    WatchNotFound,
    /// The observer's configuration was refused.
    InvalidConfig(String),
    /// The platform's limit on observed files was reached.
    MaxFilesWatch,
}

/// What a file observer reported after it was set up.
pub enum WatchEvent {
    /// The observed file's content changed.
    Modified,
    /// Something happened that does not touch the content.
    Other,
    /// The observer reported a fault, with its description.
    Failed(String),
}

/// What to do about a reported event.
pub enum ReloadAction {
    /// Wait `delay_millis`, then read `path` again and hand it to `reload`.
    Reload { path: String, delay_millis: u64 },
    /// Nothing to do.
    Ignore,
    /// Report the fault; the table keeps its data and observation goes on.
    Report(I18nError),
}

/// The state and decisions of a provider that reloads a locale from its file
/// whenever the file changes. The observer itself runs outside; it tells this
/// state what happened and performs what it is told.
pub struct FileProvider {
    messages: SharedTable,
    path: String,
    active: bool,
}

/// The message given when a provider is asked to start twice.
pub open spec fn already_watching(path: Seq<char>) -> Seq<char> {
    seq!['a', 'l', 'r', 'e', 'a', 'd', 'y', ' ', 'w', 'a', 't', 'c', 'h', 'i', 'n', 'g', ':', ' ']
        + path
}

/// The message given when the platform's observer limit is reached.
pub open spec fn max_watchers_message() -> Seq<char> {
    seq!['m', 'a', 'x', ' ', 'w', 'a', 't', 'c', 'h', 'e', 'r', 's', ' ', 'f', 'o', 'r', ' ', 'f', 'i', 'l', 'e']
}

impl FileProvider {
    pub closed spec fn messages(&self) -> SharedTable {
        self.messages
    }

    pub closed spec fn path(&self) -> Seq<char> {
        self.path@
    }

    pub closed spec fn is_active(&self) -> bool {
        self.active
    }

    /// A provider for the file at `path`, feeding `messages`, not yet started.
    pub fn new(messages: SharedTable, path: String) -> (r: FileProvider)
        ensures
            r.messages() == messages,
            r.path() == path@,
            !r.is_active(),
    {
        FileProvider { messages, path, active: false }
    }

    /// Whether observation has started.
    pub fn active(&self) -> (r: bool)
        ensures
            r == self.is_active(),
    {
        self.active
    }

    /// Redirects future reloads to `data`.
    pub fn set_data(&mut self, data: SharedTable) -> (r: Result<(), I18nError>)
        ensures
            r is Ok,
            final(self).messages() == data,
            final(self).path() == old(self).path(),
            final(self).is_active() == old(self).is_active(),
    {
        self.messages = data;
        Ok(())
    }

    /// Asks to start observing: gives the path to observe, or refuses when
    /// observation has already started.
    pub fn begin_watch(&self) -> (r: Result<String, I18nError>)
        ensures
            !self.is_active() ==> (r matches Ok(p) && p@ == self.path()),
            self.is_active() ==> (r matches Err(I18nError::WatchError { message: m })
                && m@ == already_watching(self.path())),
    {
        if self.active {
            let mut message = "already watching: ".to_owned();
            message.append(self.path.as_str());
            proof {
                reveal_strlit("already watching: ");
                assert(message@ =~= already_watching(self.path()));
            }
            Err(I18nError::WatchError { message })
        } else {
            Ok(self.path.clone())
        }
    }

    /// Records how setting up the observer went. Generic and I/O faults and a
    /// reached observer limit fail; a missing path fails as `IoError`; a
    /// missing observer or a refused configuration is let pass. The provider
    /// is active afterwards exactly when this returns `Ok`.
    pub fn finish_watch(&mut self, outcome: Result<(), WatchFailure>) -> (r: Result<(), I18nError>)
        ensures
            final(self).messages() == old(self).messages(),
            final(self).path() == old(self).path(),
            final(self).is_active() == (r is Ok),
            match outcome {
                Ok(()) => r is Ok,
                Err(WatchFailure::Generic(m)) => (r matches Err(I18nError::WatchError { message: e })
                    && e@ == m@),
                Err(WatchFailure::Io(m)) => (r matches Err(I18nError::WatchError { message: e })
                    && e@ == m@),
                Err(WatchFailure::PathNotFound) => (r matches Err(I18nError::IoError { path: p })
                    && p@ == old(self).path()),
                Err(WatchFailure::WatchNotFound) => r is Ok,
                Err(WatchFailure::InvalidConfig(_)) => r is Ok,
                Err(WatchFailure::MaxFilesWatch) => (r matches Err(I18nError::WatchError { message: e })
                    && e@ == max_watchers_message()),
            },
    {
        let r = match outcome {
            Ok(()) => Ok(()),
            Err(WatchFailure::Generic(message)) => Err(I18nError::WatchError { message }),
            Err(WatchFailure::Io(message)) => Err(I18nError::WatchError { message }),
            Err(WatchFailure::PathNotFound) => Err(I18nError::IoError { path: self.path.clone() }),
            Err(WatchFailure::WatchNotFound) => Ok(()),
            Err(WatchFailure::InvalidConfig(_)) => Ok(()),
            Err(WatchFailure::MaxFilesWatch) => {
                let message = "max watchers for file".to_owned();
                proof {
                    reveal_strlit("max watchers for file");
                    assert(message@ =~= max_watchers_message());
                }
                Err(I18nError::WatchError { message })
            },
        };
        self.active = r.is_ok();
        r
    }

    /// Decides what to do about an event: a content change is reloaded after
    /// the debounce delay, a fault is reported, anything else is ignored.
    pub fn on_event(&self, event: WatchEvent) -> (r: ReloadAction)
        ensures
            match event {
                WatchEvent::Modified => (r matches ReloadAction::Reload { path: p, delay_millis: d }
                    && p@ == self.path() && d == DEBOUNCE_MILLIS),
                WatchEvent::Other => r is Ignore,
                WatchEvent::Failed(m) => (r matches ReloadAction::Report(
                    I18nError::WatchError { message: e },
                ) && e@ == m@),
            },
    {
        match event {
            WatchEvent::Modified => ReloadAction::Reload {
                path: self.path.clone(),
                delay_millis: DEBOUNCE_MILLIS,
            },
            WatchEvent::Other => ReloadAction::Ignore,
            WatchEvent::Failed(message) => ReloadAction::Report(I18nError::WatchError { message }),
        }
    }

    /// Takes a freshly read and parsed source. When it checks out, the shared
    /// table is replaced by its flattened data in one exclusive step; when it
    /// does not, the table keeps its data and the error is returned.
    pub fn reload(&self, parsed: Result<FileStructure, String>) -> (r: Result<(), I18nError>)
        ensures
            match parsed {
                Err(cause) => (r matches Err(I18nError::InvalidStructure { path: p, cause: c })
                    && p@ == self.path() && c@ == cause@),
                Ok(s) => if s.kind@ != expected_kind() {
                    (r matches Err(I18nError::InvalidHeader { path: p }) && p@ == self.path())
                } else {
                    r is Ok
                },
            },
    {
        match load_structure(parsed, Some(self.path.clone())) {
            Ok(loaded) => {
                replace_table(&self.messages, loaded.table);
                Ok(())
            },
            Err(e) => Err(e),
        }
    }
}

} // verus!
