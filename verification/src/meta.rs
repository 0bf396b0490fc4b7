//! The meta record: which log file user writes go to.
//!
//! The record is kept in memory once known; writing it to and reading it from
//! the meta file is done by the code around the library.
use vstd::prelude::*;

verus! {

/// The content of the meta file.
#[derive(Debug, Clone, Copy, PartialEq, Eq, Structural)]
pub struct MetaFileStore {
    pub usertarfid: u64,
}

impl MetaFileStore {
    /// The record before any target file was chosen: file 1.
    pub fn default() -> (m: MetaFileStore)
        ensures
            m.usertarfid == 1,
    {
        MetaFileStore { usertarfid: 1 }
    }
}

/// The meta record as far as it is known in memory.
pub struct MetaFileOpe {
    pub store: Option<MetaFileStore>,
}

impl MetaFileOpe {
    /// Nothing known yet.
    pub fn create() -> (m: MetaFileOpe)
        ensures
            m.store is None,
    {
        MetaFileOpe { store: None }
    }

    /// The path of the meta file.
    pub fn metafile_path() -> (r: &'static str)
        ensures
            r@ == "./store/meta"@,
    {
        "./store/meta"
    }

    /// Records `id` as the target file and returns the record to persist.
    pub fn set_usertar_fid(&mut self, id: u64) -> (persist: MetaFileStore)
        ensures
            final(self).store == Some(persist),
            persist.usertarfid == id,
    {
        match &mut self.store {
            None => {
                self.store = Some(MetaFileStore { usertarfid: id });
            },
            Some(v) => {
                v.usertarfid = id;
            },
        }
        MetaFileStore { usertarfid: id }
    }

    /// The target file id, if the record is already known in memory.
    pub fn cached_usertar_fid(&self) -> (r: Option<u64>)
        ensures
            r == (match self.store {
                Some(v) => Some(v.usertarfid),
                None => None,
            }),
    {
        match &self.store {
            Some(v) => Some(v.usertarfid),
            None => None,
        }
    }

    /// Takes in what was read from the meta file (`None` when it could not
    /// be parsed) and returns the target file id. An unreadable record is
    /// replaced by file 1, which the caller then persists.
    pub fn load_usertar_fid(&mut self, parsed: Option<MetaFileStore>) -> (id: u64)
        requires
            old(self).store is None,
        ensures
            match parsed {
                Some(v) => id == v.usertarfid && final(self).store == Some(v),
                None => id == 1 && final(self).store == Some(MetaFileStore { usertarfid: 1 }),
            },
    {
        match parsed {
            Some(v) => {
                self.store = Some(v);
                v.usertarfid
            },
            None => {
                self.set_usertar_fid(1);
                1
            },
        }
    }
}

} // verus!
