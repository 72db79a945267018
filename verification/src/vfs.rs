//! The virtual file system: named blobs of bytes, held in memory.
//!
//! There are no directories. A name is a whole path, and no two files have
//! the same name. Files registered by the system are read-only: the
//! ordinary calls can neither overwrite nor delete them.

use crate::text::{has_path_prefix, is_path_prefix, same_text, texts};
use vstd::prelude::*;
use vstd::slice::slice_to_vec;

verus! {

/// One file.
#[derive(Debug, Clone)]
pub struct VirtualFile {
    pub name: String,
    pub data: Vec<u8>,
    /// The agent that wrote the file; 0 for a file of the system.
    pub owner_pid: u64,
    pub read_only: bool,
}

/// A file, as mathematics.
pub struct FileModel {
    pub name: Seq<char>,
    pub data: Seq<u8>,
    pub owner_pid: u64,
    pub read_only: bool,
}

impl View for VirtualFile {
    type V = FileModel;

    open spec fn view(&self) -> FileModel {
        FileModel {
            name: self.name@,
            data: self.data@,
            owner_pid: self.owner_pid,
            read_only: self.read_only,
        }
    }
}

/// Whether the file at position `i` of `files` is called `name`.
pub open spec fn named_at(files: Seq<FileModel>, name: Seq<char>, i: int) -> bool {
    0 <= i < files.len() && files[i].name == name
}

/// Whether a file of `files` is called `name`.
pub open spec fn has_file(files: Seq<FileModel>, name: Seq<char>) -> bool {
    exists|i: int| named_at(files, name, i)
}

/// The position of the file called `name`.
pub open spec fn index_of(files: Seq<FileModel>, name: Seq<char>) -> int
    recommends
        has_file(files, name),
{
    choose|i: int| named_at(files, name, i)
}

/// Whether `name` is the name of a read-only file.
pub open spec fn is_protected(files: Seq<FileModel>, name: Seq<char>) -> bool {
    has_file(files, name) && files[index_of(files, name)].read_only
}

/// No two files have the same name.
pub open spec fn names_unique(files: Seq<FileModel>) -> bool {
    forall|i: int, j: int|
        0 <= i < j < files.len() ==> (#[trigger] files[i]).name != (#[trigger] files[j]).name
}

/// The names of `files`, in the order of the files.
pub open spec fn names(files: Seq<FileModel>) -> Seq<Seq<char>> {
    files.map_values(|f: FileModel| f.name)
}

/// The files after the system registered `name`: a new read-only file of
/// the system at the end, or no change where the name is taken.
pub open spec fn after_register(files: Seq<FileModel>, name: Seq<char>, data: Seq<u8>) -> Seq<
    FileModel,
> {
    if has_file(files, name) {
        files
    } else {
        files.push(FileModel { name, data, owner_pid: 0, read_only: true })
    }
}

/// The files after `owner_pid` wrote `data` to `name`: a read-only file
/// stays as it is, another file gets the data and the owner, and a new name
/// becomes a new file at the end.
pub open spec fn after_write(
    files: Seq<FileModel>,
    name: Seq<char>,
    data: Seq<u8>,
    owner_pid: u64,
) -> Seq<FileModel> {
    let file = FileModel { name, data, owner_pid, read_only: false };
    if is_protected(files, name) {
        files
    } else if has_file(files, name) {
        files.update(index_of(files, name), file)
    } else {
        files.push(file)
    }
}

/// The files after `name` was deleted: without that file, unless it is
/// read-only or not there.
pub open spec fn after_delete(files: Seq<FileModel>, name: Seq<char>) -> Seq<FileModel> {
    if has_file(files, name) && !is_protected(files, name) {
        files.remove(index_of(files, name))
    } else {
        files
    }
}

/// With unique names, the file called `name` has one position.
pub proof fn lemma_one_position(files: Seq<FileModel>, name: Seq<char>, i: int)
    requires
        names_unique(files),
        named_at(files, name, i),
    ensures
        has_file(files, name),
        index_of(files, name) == i,
{
    let j = index_of(files, name);
    assert(named_at(files, name, j));
    if i < j {
        assert(files[i].name != files[j].name);
    }
    if j < i {
        assert(files[j].name != files[i].name);
    }
}

/// Registering, writing and deleting keep the names unique: a name that
/// exists is never added a second time.
pub proof fn lemma_names_stay_unique(
    files: Seq<FileModel>,
    name: Seq<char>,
    data: Seq<u8>,
    owner_pid: u64,
)
    requires
        names_unique(files),
    ensures
        names_unique(after_register(files, name, data)),
        names_unique(after_write(files, name, data, owner_pid)),
        names_unique(after_delete(files, name)),
{
    if !has_file(files, name) {
        assert forall|i: int| 0 <= i < files.len() implies (#[trigger] files[i]).name != name by {
            assert(!named_at(files, name, i));
        }
    } else {
        let k = index_of(files, name);
        assert(named_at(files, name, k));
        let written = files.update(k, FileModel { name, data, owner_pid, read_only: false });
        assert forall|i: int, j: int| 0 <= i < j < written.len() implies (#[trigger] written[i]).name
            != (#[trigger] written[j]).name by {
            assert(files[i].name != files[j].name);
        }
        let deleted = files.remove(k);
        assert forall|i: int, j: int| 0 <= i < j < deleted.len() implies (#[trigger] deleted[i]).name
            != (#[trigger] deleted[j]).name by {
            let ii = if i < k {
                i
            } else {
                i + 1
            };
            let jj = if j < k {
                j
            } else {
                j + 1
            };
            assert(deleted[i] == files[ii]);
            assert(deleted[j] == files[jj]);
            assert(files[ii].name != files[jj].name);
        }
    }
}

/// The files of the kernel.
pub struct VfsRegistry {
    files: Vec<VirtualFile>,
}

impl View for VfsRegistry {
    type V = Seq<FileModel>;

    closed spec fn view(&self) -> Seq<FileModel> {
        self.files@.map_values(|f: VirtualFile| f@)
    }
}

impl VfsRegistry {
    /// No files.
    pub fn new() -> (registry: Self)
        ensures
            registry@ == Seq::<FileModel>::empty(),
            names_unique(registry@),
    {
        let registry = VfsRegistry { files: Vec::new() };
        assert(registry@ =~= Seq::<FileModel>::empty());
        registry
    }

    fn position(&self, name: &str) -> (found: Option<usize>)
        ensures
            match found {
                Some(i) => named_at(self@, name@, i as int),
                None => !has_file(self@, name@),
            },
    {
        let mut i: usize = 0;
        while i < self.files.len()
            invariant
                0 <= i <= self.files.len(),
                forall|j: int| 0 <= j < i ==> !named_at(self@, name@, j),
            decreases self.files.len() - i,
        {
            if same_text(self.files[i].name.as_str(), name) {
                return Some(i);
            }
            i += 1;
        }
        None
    }
}

/// Registers a read-only file of the system. A name that is taken keeps
/// the file it has.
pub fn register_file(registry: &mut VfsRegistry, name: &str, data: &[u8])
    requires
        names_unique(old(registry)@),
    ensures
        final(registry)@ == after_register(old(registry)@, name@, data@),
        names_unique(final(registry)@),
{
    proof {
        lemma_names_stay_unique(registry@, name@, data@, 0);
    }
    if registry.position(name).is_none() {
        registry.files.push(
            VirtualFile {
                name: name.to_owned(),
                data: slice_to_vec(data),
                owner_pid: 0,
                read_only: true,
            },
        );
        assert(registry@ =~= after_register(old(registry)@, name@, data@));
    }
}

/// A copy of the contents of the file called `name`, or `None` if there
/// is no such file.
pub fn open_file(registry: &VfsRegistry, name: &str) -> (contents: Option<Vec<u8>>)
    requires
        names_unique(registry@),
    ensures
        contents is Some <==> has_file(registry@, name@),
        contents matches Some(data) ==> data@ == registry@[index_of(registry@, name@)].data,
{
    match registry.position(name) {
        Some(i) => {
            proof {
                lemma_one_position(registry@, name@, i as int);
            }
            Some(slice_to_vec(registry.files[i].data.as_slice()))
        },
        None => None,
    }
}

/// The names of all files, in the order in which the files came.
pub fn list_files(registry: &VfsRegistry) -> (listing: Vec<String>)
    ensures
        texts(listing@) == names(registry@),
{
    let mut listing: Vec<String> = Vec::new();
    let mut i: usize = 0;
    while i < registry.files.len()
        invariant
            0 <= i <= registry.files.len(),
            listing@.len() == i,
            texts(listing@) == names(registry@).take(i as int),
        decreases registry.files.len() - i,
    {
        let ghost before = listing@;
        listing.push(registry.files[i].name.clone());
        assert forall|k: int| 0 <= k <= i implies texts(listing@)[k] == names(registry@)[k] by {
            if k < i {
                assert(texts(before)[k] == names(registry@).take(i as int)[k]);
            }
        }
        assert(texts(listing@) =~= names(registry@).take(i + 1));
        i += 1;
    }
    assert(names(registry@).take(i as int) =~= names(registry@));
    listing
}

/// The names that begin with `prefix`, in the order in which the files
/// came.
pub fn list_files_prefix(registry: &VfsRegistry, prefix: &str) -> (listing: Vec<String>)
    ensures
        texts(listing@) == names(registry@).filter(|n: Seq<char>| is_path_prefix(prefix@, n)),
{
    let ghost wanted = |n: Seq<char>| is_path_prefix(prefix@, n);
    let mut listing: Vec<String> = Vec::new();
    let mut i: usize = 0;
    proof {
        reveal(Seq::filter);
        assert(names(registry@).take(0).filter(wanted) =~= Seq::<Seq<char>>::empty());
        assert(texts(listing@) =~= Seq::<Seq<char>>::empty());
    }
    while i < registry.files.len()
        invariant
            0 <= i <= registry.files.len(),
            wanted == |n: Seq<char>| is_path_prefix(prefix@, n),
            texts(listing@) == names(registry@).take(i as int).filter(wanted),
        decreases registry.files.len() - i,
    {
        proof {
            reveal(Seq::filter);
            let whole = names(registry@).take(i + 1);
            assert(whole.drop_last() =~= names(registry@).take(i as int));
            assert(whole.last() == registry@[i as int].name);
        }
        if has_path_prefix(registry.files[i].name.as_str(), prefix) {
            let ghost before = listing@;
            listing.push(registry.files[i].name.clone());
            assert(texts(listing@) =~= texts(before).push(registry@[i as int].name));
        }
        i += 1;
    }
    assert(names(registry@).take(i as int) =~= names(registry@));
    listing
}

/// Writes `data` to the file called `name`, creating it if need be, and
/// makes `owner_pid` its owner. Fails, changing nothing, exactly when the
/// name is that of a read-only file.
pub fn write_file(registry: &mut VfsRegistry, name: &str, data: &[u8], owner_pid: u64) -> (written:
    bool)
    requires
        names_unique(old(registry)@),
    ensures
        written == !is_protected(old(registry)@, name@),
        final(registry)@ == after_write(old(registry)@, name@, data@, owner_pid),
        names_unique(final(registry)@),
{
    proof {
        lemma_names_stay_unique(registry@, name@, data@, owner_pid);
    }
    match registry.position(name) {
        Some(i) => {
            proof {
                lemma_one_position(registry@, name@, i as int);
            }
            if registry.files[i].read_only {
                return false;
            }
            registry.files[i] = VirtualFile {
                name: name.to_owned(),
                data: slice_to_vec(data),
                owner_pid,
                read_only: false,
            };
            assert(registry@ =~= after_write(old(registry)@, name@, data@, owner_pid));
            true
        },
        None => {
            registry.files.push(
                VirtualFile {
                    name: name.to_owned(),
                    data: slice_to_vec(data),
                    owner_pid,
                    read_only: false,
                },
            );
            assert(registry@ =~= after_write(old(registry)@, name@, data@, owner_pid));
            true
        },
    }
}

/// Deletes the file called `name`. Returns whether a file was deleted: a
/// read-only file stays, and so does everything where there is no such
/// file.
pub fn delete_file(registry: &mut VfsRegistry, name: &str) -> (deleted: bool)
    requires
        names_unique(old(registry)@),
    ensures
        deleted == (has_file(old(registry)@, name@) && !is_protected(old(registry)@, name@)),
        final(registry)@ == after_delete(old(registry)@, name@),
        names_unique(final(registry)@),
{
    proof {
        lemma_names_stay_unique(registry@, name@, Seq::empty(), 0);
    }
    match registry.position(name) {
        Some(i) => {
            proof {
                lemma_one_position(registry@, name@, i as int);
            }
            if registry.files[i].read_only {
                return false;
            }
            registry.files.remove(i);
            assert(registry@ =~= after_delete(old(registry)@, name@));
            true
        },
        None => false,
    }
}

} // verus!
