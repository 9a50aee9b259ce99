//! Events reported by the file watcher that monitors open files and
//! directories.  The watcher itself lives with the surrounding
//! application; consumers only see these events.

use vstd::prelude::*;

verus! {

/// One change seen by the file watcher.
pub enum WatchEvent {
    /// A watched file changed.
    FileChanged(String),
    /// A watched directory changed: a file was added or removed.
    DirChanged(String),
}

impl WatchEvent {
    /// The path the event speaks of.
    pub fn path(&self) -> (r: &str)
        ensures
            self matches WatchEvent::FileChanged(p) ==> r@ == p@,
            self matches WatchEvent::DirChanged(p) ==> r@ == p@,
    {
        match self {
            WatchEvent::FileChanged(p) => p.as_str(),
            WatchEvent::DirChanged(p) => p.as_str(),
        }
    }
}

} // verus!
