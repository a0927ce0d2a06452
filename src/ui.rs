//! The model behind a graphical front end: the files with their previews,
//! the replacement rows, and the messages that change them.
use crate::path::copy_bytes;
use crate::rename::{planned, PlanError, Rename};
use vstd::prelude::*;

verus! {

/// A file with the path it would get.
#[derive(Clone, Debug, PartialEq, Eq, Hash)]
pub struct FileItem {
    pub path: Vec<u8>,
    pub new_path: Vec<u8>,
    deleted: bool,
}

/// What can happen to a file in the list.
#[derive(Clone, Debug)]
pub enum FileMessage {
    Delete,
    Replace(Vec<u8>),
}

/// The files of a front end, in the order they were added.
#[derive(Clone, Debug, Default)]
pub struct FileList(pub Vec<FileItem>);

/// A direct search and replacement row.
#[derive(Clone, Debug)]
pub struct ReplaceItem {
    pub replace: String,
    pub search: String,
}

/// What can happen to a replacement row.
#[derive(Clone, Debug)]
pub enum ReplaceMessage {
    ChangeSearch(String),
    ChangeReplace(String),
    Delete,
}

/// What can happen to a rule set in the set list.
#[derive(Clone, Copy, Debug, PartialEq, Eq, Structural)]
pub enum SetUiMessage {
    Active(bool),
    ByDefault(bool),
    Edit,
    SaveDraft,
    DiscardDraft,
}

/// The items that were not removed, in order.
pub open spec fn present_items(s: Seq<FileItem>) -> Seq<FileItem>
    decreases s.len(),
{
    if s.len() == 0 {
        s
    } else if s.last().is_deleted() {
        present_items(s.drop_last())
    } else {
        present_items(s.drop_last()).push(s.last())
    }
}

impl View for FileItem {
    /// The path, the preview, and whether the user removed the file.
    type V = (Seq<u8>, Seq<u8>, bool);

    closed spec fn view(&self) -> (Seq<u8>, Seq<u8>, bool) {
        (self.path@, self.new_path@, self.deleted)
    }
}

impl FileItem {
    pub open spec fn is_deleted(&self) -> bool {
        self@.2
    }

    /// Whether the user removed this file.
    pub fn deleted(&self) -> (r: bool)
        ensures
            r == self.is_deleted(),
    {
        self.deleted
    }

    /// A file that is in the list, with its preview.
    pub fn new(path: Vec<u8>, new_path: Vec<u8>) -> (r: Self)
        ensures
            r@ == (path@, new_path@, false),
    {
        FileItem { path, deleted: false, new_path }
    }

    /// Marks the file removed, or puts another path in its place.
    pub fn update(&mut self, msg: FileMessage)
        ensures
            final(self)@ == match msg {
                FileMessage::Delete => (old(self)@.0, old(self)@.1, true),
                FileMessage::Replace(f) => (f@, old(self)@.1, old(self)@.2),
            },
    {
        match msg {
            FileMessage::Delete => self.deleted = true,
            FileMessage::Replace(f) => self.path = f,
        }
    }

    /// Plans the file again, given whether it exists and is a directory: the
    /// preview becomes the planned path, or the path itself when the file is
    /// skipped.
    pub fn update_preview(&mut self, rename: &Rename, exists: bool, is_dir: bool) -> (r: Result<
        (),
        PlanError,
    >)
        ensures
            match planned(*rename, old(self)@.0, exists, is_dir) {
                Ok(Some(p)) => r is Ok && final(self)@ == (old(self)@.0, p, old(self)@.2),
                Ok(None) => r is Ok && final(self)@ == (old(self)@.0, old(self)@.0, old(self)@.2),
                Err(e) => r is Err && r->Err_0 == e && final(self)@ == old(self)@,
            },
    {
        match rename.get_new_path(self.path.as_slice(), exists, is_dir) {
            Err(e) => Err(e),
            Ok(Some(p)) => {
                self.new_path = p;
                Ok(())
            },
            Ok(None) => {
                self.new_path = copy_bytes(self.path.as_slice());
                Ok(())
            },
        }
    }
}

impl FileList {
    /// The paths of the files, in order.
    pub fn paths(&self) -> (r: Vec<Vec<u8>>)
        ensures
            r@.len() == self.0@.len(),
            forall|i: int| 0 <= i < r@.len() ==> (#[trigger] r@[i])@ == self.0@[i]@.0,
    {
        let mut r: Vec<Vec<u8>> = Vec::new();
        let mut i: usize = 0;
        while i < self.0.len()
            invariant
                0 <= i <= self.0@.len(),
                r@.len() == i,
                forall|j: int| 0 <= j < i ==> (#[trigger] r@[j])@ == self.0@[j]@.0,
            decreases self.0@.len() - i,
        {
            r.push(copy_bytes(self.0[i].path.as_slice()));
            i = i + 1;
        }
        r
    }

    /// Drops the files that the user removed, keeping the order of the rest.
    pub fn retain_present(&mut self)
        ensures
            final(self).0@ == present_items(old(self).0@),
    {
        let ghost old_items = self.0@;
        let mut kept: Vec<FileItem> = Vec::new();
        let mut rest: Vec<FileItem> = Vec::new();
        std::mem::swap(&mut rest, &mut self.0);
        let ghost mut k: int = 0;
        assert(old_items.subrange(0, 0) =~= Seq::<FileItem>::empty());
        assert(old_items.subrange(0, old_items.len() as int) =~= old_items);
        while rest.len() > 0
            invariant
                0 <= k <= old_items.len(),
                rest@ == old_items.subrange(k, old_items.len() as int),
                kept@ == present_items(old_items.subrange(0, k)),
            decreases rest@.len(),
        {
            let f = rest.remove(0);
            proof {
                assert(old_items.subrange(0, k + 1).drop_last() =~= old_items.subrange(0, k));
                assert(old_items.subrange(0, k + 1).last() == f);
                assert(rest@ =~= old_items.subrange(k + 1, old_items.len() as int));
                k = k + 1;
            }
            if !f.deleted {
                kept.push(f);
            }
        }
        assert(old_items.subrange(0, k) =~= old_items);
        self.0 = kept;
    }
}

impl ReplaceItem {
    /// A row that searches for `search` and puts `replace` in its place.
    pub fn new(search: String, replace: String) -> (r: Self)
        ensures
            r.search == search,
            r.replace == replace,
    {
        ReplaceItem { search, replace }
    }
}

} // verus!
