//! A model of the durable-write protocol: new content goes to a temporary
//! file first, then an atomic rename moves it onto the target path. The
//! contracts here pin the crash behaviour: until the rename, the target holds
//! the old content whole; after it, the new content whole. A caller mirrors
//! these two steps with real file operations; readers of the target path
//! never observe a partial write.

use vstd::prelude::*;

verus! {

/// The two files the protocol touches: the durable target's content and the
/// temporary file's, each absent when the file does not exist.
pub struct FileState {
    pub target: Option<String>,
    pub temp: Option<String>,
}

impl FileState {
    /// A path with no files yet.
    pub fn empty() -> (r: FileState)
        ensures
            r.target is None,
            r.temp is None,
    {
        FileState { target: None, temp: None }
    }

    /// Writes the new content to the temporary file. The durable target is
    /// untouched: a crash after this step leaves the old content fully
    /// intact and readable.
    pub fn stage(&mut self, data: String)
        ensures
            final(self).target == old(self).target,
            final(self).temp == Some(data),
    {
        self.temp = Some(data);
    }

    /// Atomically renames the temporary file onto the target. After this
    /// step the target holds exactly the staged content: a crash after the
    /// rename leaves the new content fully intact.
    pub fn commit(&mut self)
        requires
            old(self).temp is Some,
        ensures
            final(self).target == old(self).temp,
            final(self).temp is None,
    {
        let staged = match &self.temp {
            Some(s) => Some(s.clone()),
            None => None,
        };
        self.target = staged;
        self.temp = None;
    }

    /// What a reader of the target path sees: always one complete content,
    /// never a mixture of old and new.
    pub fn read_target(&self) -> (r: &Option<String>)
        ensures
            *r == self.target,
    {
        &self.target
    }
}

} // verus!
