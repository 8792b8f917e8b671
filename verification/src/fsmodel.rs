use vstd::prelude::*;

verus! {

/// A model of the slice of the filesystem that the cache and the
/// installer own: regular files with their bytes, and directory trees
/// by their root path.
pub struct DiskModel {
    pub files: Map<Seq<char>, Seq<u8>>,
    pub dirs: Set<Seq<char>>,
}

impl DiskModel {
    pub open spec fn has_file(self, p: Seq<char>) -> bool {
        self.files.dom().contains(p)
    }

    pub open spec fn file_at(self, p: Seq<char>) -> Seq<u8> {
        self.files[p]
    }

    pub open spec fn has_dir(self, p: Seq<char>) -> bool {
        self.dirs.contains(p)
    }

    pub open spec fn write_file(self, p: Seq<char>, bytes: Seq<u8>) -> DiskModel {
        DiskModel { files: self.files.insert(p, bytes), dirs: self.dirs }
    }

    pub open spec fn remove_file(self, p: Seq<char>) -> DiskModel {
        DiskModel { files: self.files.remove(p), dirs: self.dirs }
    }

    /// An atomic rename: the bytes appear whole at `to`, and `from` is gone.
    pub open spec fn rename_file(self, from: Seq<char>, to: Seq<char>) -> DiskModel {
        DiskModel { files: self.files.remove(from).insert(to, self.files[from]), dirs: self.dirs }
    }

    pub open spec fn mk_dir(self, p: Seq<char>) -> DiskModel {
        DiskModel { files: self.files, dirs: self.dirs.insert(p) }
    }

    pub open spec fn remove_dir(self, p: Seq<char>) -> DiskModel {
        DiskModel { files: self.files, dirs: self.dirs.remove(p) }
    }

    /// An atomic directory rename: the tree appears whole at `to`.
    pub open spec fn rename_dir(self, from: Seq<char>, to: Seq<char>) -> DiskModel {
        DiskModel { files: self.files, dirs: self.dirs.remove(from).insert(to) }
    }
}

} // verus!
