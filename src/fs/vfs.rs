//! Open-file table over the TAR archive; descriptors 0 to 2 are the
//! standard streams.
use vstd::prelude::*;
use crate::fs::tar::{EntryModel, TarArchive, TarEntry, TarError, file_index};
use crate::keyboard::KeyboardBuffer;

verus! {

pub const MAX_OPEN_FILES: usize = 128;

/// First descriptor handed to an opened file.
pub const FIRST_FILE_FD: usize = 3;

#[derive(Clone, Copy, Debug, PartialEq, Eq, Structural)]
pub struct FileDescriptor(pub usize);

#[derive(Clone, Copy, Debug, PartialEq, Eq, Structural)]
pub enum VfsError {
    TooManyOpenFiles,
    CannotCloseStandardStream,
    InvalidFileDescriptor,
    NotOpen,
    NotInitialized,
    FileNotFound,
    Archive(TarError),
}

#[derive(Debug)]
pub struct OpenFile {
    pub path: String,
    /// Read position within the entry's data.
    pub offset: usize,
    pub tar_entry: TarEntry,
}

impl OpenFile {
    pub open spec fn model(&self) -> (Seq<char>, int, EntryModel) {
        (self.path@, self.offset as int, self.tar_entry.model())
    }
}

pub open spec fn slot_model(o: Option<OpenFile>) -> Option<(Seq<char>, int, EntryModel)> {
    match o {
        Some(f) => Some(f.model()),
        None => None,
    }
}

pub struct FileTable {
    files: Vec<Option<OpenFile>>,
    next_fd: usize,
}

impl FileTable {
    /// Slot `fd` of the table.
    pub closed spec fn slots(&self) -> Seq<Option<(Seq<char>, int, EntryModel)>> {
        self.files@.map_values(|o: Option<OpenFile>| slot_model(o))
    }

    pub closed spec fn wf(&self) -> bool {
        self.files@.len() == MAX_OPEN_FILES && self.next_fd == FIRST_FILE_FD
    }

    /// Every slot free.
    pub fn new() -> (r: Self)
        ensures
            r.wf(),
            forall|i: int| 0 <= i < MAX_OPEN_FILES ==> #[trigger] r.slots()[i] is None,
    {
        let mut files: Vec<Option<OpenFile>> = Vec::new();
        let mut i: usize = 0;
        while i < MAX_OPEN_FILES
            invariant
                i <= MAX_OPEN_FILES,
                files@.len() == i,
                forall|k: int| 0 <= k < i ==> files@[k] is None,
            decreases MAX_OPEN_FILES - i,
        {
            files.push(None);
            i = i + 1;
        }
        FileTable { files, next_fd: FIRST_FILE_FD }
    }

    /// Puts `file` in the lowest free slot from 3 on.
    pub fn alloc_fd(&mut self, file: OpenFile) -> (r: Result<FileDescriptor, VfsError>)
        requires
            old(self).wf(),
        ensures
            final(self).wf(),
            match r {
                Ok(fd) => {
                    &&& FIRST_FILE_FD <= fd.0 < MAX_OPEN_FILES
                    &&& old(self).slots()[fd.0 as int] is None
                    &&& forall|k: int| FIRST_FILE_FD <= k < fd.0 ==> (#[trigger] old(self).slots()[k]) is Some
                    &&& final(self).slots() == old(self).slots().update(fd.0 as int, Some(file.model()))
                },
                Err(e) => {
                    &&& e == VfsError::TooManyOpenFiles
                    &&& forall|k: int| FIRST_FILE_FD <= k < MAX_OPEN_FILES ==> (#[trigger] old(self).slots()[k]) is Some
                    &&& final(self).slots() == old(self).slots()
                },
            },
    {
        let mut fd = self.next_fd;
        while fd < MAX_OPEN_FILES
            invariant
                self.wf(),
                *self == *old(self),
                FIRST_FILE_FD <= fd <= MAX_OPEN_FILES,
                forall|k: int| FIRST_FILE_FD <= k < fd ==> (#[trigger] self.slots()[k]) is Some,
            decreases MAX_OPEN_FILES - fd,
        {
            if self.files[fd].is_none() {
                let ghost before = self.slots();
                self.files.set(fd, Some(file));
                proof {
                    assert(self.slots() =~= before.update(fd as int, Some(file.model())));
                }
                return Ok(FileDescriptor(fd));
            }
            fd = fd + 1;
        }
        Err(VfsError::TooManyOpenFiles)
    }

    /// The open file behind `fd`.
    pub fn get(&self, fd: FileDescriptor) -> (r: Option<&OpenFile>)
        requires
            self.wf(),
        ensures
            fd.0 >= MAX_OPEN_FILES ==> r is None,
            fd.0 < MAX_OPEN_FILES ==> match self.slots()[fd.0 as int] {
                Some(m) => r matches Some(f) && f.model() == m,
                None => r is None,
            },
    {
        if fd.0 < MAX_OPEN_FILES {
            match &self.files[fd.0] {
                Some(f) => Some(f),
                None => None,
            }
        } else {
            None
        }
    }

    /// Moves the read position of the open file at `fd` to `offset`.
    fn set_offset(&mut self, fd: usize, offset: usize)
        requires
            old(self).wf(),
            fd < MAX_OPEN_FILES,
            old(self).slots()[fd as int] is Some,
        ensures
            final(self).wf(),
            final(self).slots() == old(self).slots().update(
                fd as int,
                Some(((old(self).slots()[fd as int]->0).0, offset as int, (old(self).slots()[fd as int]->0).2)),
            ),
    {
        let ghost before = self.slots();
        let updated = match &self.files[fd] {
            Some(f) => OpenFile {
                path: f.path.clone(),
                offset,
                tar_entry: TarEntry {
                    name: f.tar_entry.name.clone(),
                    size: f.tar_entry.size,
                    offset: f.tar_entry.offset,
                    file_type: f.tar_entry.file_type,
                },
            },
            None => {
                return;
            },
        };
        self.files.set(fd, Some(updated));
        proof {
            assert(self.slots() =~= before.update(
                fd as int,
                Some(((before[fd as int]->0).0, offset as int, (before[fd as int]->0).2)),
            ));
        }
    }

    /// Frees slot `fd`; the standard streams cannot be closed.
    pub fn close(&mut self, fd: FileDescriptor) -> (r: Result<(), VfsError>)
        requires
            old(self).wf(),
        ensures
            final(self).wf(),
            fd.0 < 3 ==> r == Err::<(), VfsError>(VfsError::CannotCloseStandardStream),
            3 <= fd.0 && fd.0 >= MAX_OPEN_FILES ==> r == Err::<(), VfsError>(VfsError::InvalidFileDescriptor),
            3 <= fd.0 < MAX_OPEN_FILES && old(self).slots()[fd.0 as int] is None ==> r == Err::<(), VfsError>(
                VfsError::NotOpen,
            ),
            3 <= fd.0 < MAX_OPEN_FILES && old(self).slots()[fd.0 as int] is Some ==> r is Ok && final(self).slots()
                == old(self).slots().update(fd.0 as int, None),
            r is Err ==> final(self).slots() == old(self).slots(),
    {
        if fd.0 < 3 {
            return Err(VfsError::CannotCloseStandardStream);
        }
        if fd.0 >= MAX_OPEN_FILES {
            return Err(VfsError::InvalidFileDescriptor);
        }
        if self.files[fd.0].is_some() {
            let ghost before = self.slots();
            self.files.set(fd.0, None);
            proof {
                assert(self.slots() =~= before.update(fd.0 as int, None));
            }
            Ok(())
        } else {
            Err(VfsError::NotOpen)
        }
    }
}

/// The file system: the open-file table and the archive behind it.
pub struct Vfs {
    pub table: FileTable,
    pub archive: TarArchive,
}

impl Vfs {
    pub open spec fn wf(&self) -> bool {
        self.table.wf()
    }
}

/// Mounts the archive in `tar_data`.
pub fn init(tar_data: Vec<u8>) -> (r: Result<Vfs, VfsError>)
    ensures
        match r {
            Ok(v) => v.wf() && v.archive.data_view() == tar_data@ && forall|i: int|
                0 <= i < MAX_OPEN_FILES ==> #[trigger] v.table.slots()[i] is None,
            Err(e) => e matches VfsError::Archive(_),
        },
{
    match TarArchive::new(tar_data) {
        Ok(archive) => Ok(Vfs { table: FileTable::new(), archive }),
        Err(e) => Err(VfsError::Archive(e)),
    }
}

/// Opens the regular file `path` of the archive.
pub fn open(vfs: &mut Vfs, path: &str) -> (r: Result<FileDescriptor, VfsError>)
    requires
        old(vfs).wf(),
    ensures
        final(vfs).wf(),
        final(vfs).archive.entries_view() == old(vfs).archive.entries_view(),
        final(vfs).archive.data_view() == old(vfs).archive.data_view(),
        file_index(old(vfs).archive.entries_view(), path@, 0) is None ==> r == Err::<FileDescriptor, VfsError>(
            VfsError::FileNotFound,
        ),
        r matches Ok(fd) ==> ({
            let i = file_index(old(vfs).archive.entries_view(), path@, 0)->0;
            final(vfs).table.slots() == old(vfs).table.slots().update(
                fd.0 as int,
                Some((path@, 0int, old(vfs).archive.entries_view()[i])),
            ) && old(vfs).table.slots()[fd.0 as int] is None && FIRST_FILE_FD <= fd.0 < MAX_OPEN_FILES
        }),
        r is Err ==> final(vfs).table.slots() == old(vfs).table.slots(),
{
    let entry = match vfs.archive.find_file(path) {
        Some(e) => TarEntry { name: e.name.clone(), size: e.size, offset: e.offset, file_type: e.file_type },
        None => {
            return Err(VfsError::FileNotFound);
        },
    };
    let file = OpenFile { path: String::from_str(path), offset: 0, tar_entry: entry };
    vfs.table.alloc_fd(file)
}

/// Reads from `fd`: standard input drains the keyboard buffer; a file
/// gives the next bytes of its data and advances.
pub fn read(vfs: &mut Vfs, keyboard: &mut KeyboardBuffer, fd: FileDescriptor, buf: &mut [u8]) -> (r: Result<usize, VfsError>)
    requires
        old(vfs).wf(),
        old(keyboard).wf(),
    ensures
        final(vfs).wf(),
        final(keyboard).wf(),
        final(vfs).archive.entries_view() == old(vfs).archive.entries_view(),
        final(vfs).archive.data_view() == old(vfs).archive.data_view(),
        fd.0 == 0 ==> (r matches Ok(n) && n == vstd::math::min(old(buf)@.len() as int, old(keyboard)@.len() as int)
            && final(keyboard)@ == old(keyboard)@.subrange(n as int, old(keyboard)@.len() as int)
            && final(buf)@.subrange(0, n as int) == old(keyboard)@.subrange(0, n as int)),
        fd.0 != 0 && (fd.0 >= MAX_OPEN_FILES || old(vfs).table.slots()[fd.0 as int] is None) ==> r
            == Err::<usize, VfsError>(VfsError::InvalidFileDescriptor) && final(vfs).table.slots() == old(vfs).table.slots(),
        fd.0 != 0 && fd.0 < MAX_OPEN_FILES && old(vfs).table.slots()[fd.0 as int] is Some ==> ({
            let (p, off, e) = old(vfs).table.slots()[fd.0 as int]->0;
            let data = old(vfs).archive.data_view();
            let avail = if e.2 + e.1 <= data.len() && off < e.1 { e.1 - off } else { 0 };
            let n = vstd::math::min(old(buf)@.len() as int, avail);
            &&& r == Ok::<usize, VfsError>(n as usize)
            &&& n > 0 ==> final(buf)@.subrange(0, n) == data.subrange(e.2 + off, e.2 + off + n)
            &&& n > 0 ==> final(vfs).table.slots() == old(vfs).table.slots().update(fd.0 as int, Some((p, off + n, e)))
            &&& n == 0 ==> final(vfs).table.slots() == old(vfs).table.slots()
        }),
{
    if fd.0 == 0 {
        let n = keyboard.read(buf);
        return Ok(n);
    }
    if fd.0 >= MAX_OPEN_FILES {
        return Err(VfsError::InvalidFileDescriptor);
    }
    let (off, entry_off, size) = match vfs.table.get(fd) {
        Some(f) => (f.offset, f.tar_entry.offset, f.tar_entry.size),
        None => {
            return Err(VfsError::InvalidFileDescriptor);
        },
    };
    let dlen = vfs.archive.data_len();
    let avail = if entry_off <= dlen && size <= dlen - entry_off && off < size {
        size - off
    } else {
        0
    };
    let to_read = if buf.len() < avail { buf.len() } else { avail };
    if to_read == 0 {
        return Ok(0);
    }
    let start = entry_off + off;
    let mut i: usize = 0;
    while i < to_read
        invariant
            i <= to_read,
            to_read <= buf@.len(),
            start + to_read <= dlen,
            dlen == vfs.archive.data_view().len(),
            buf@.len() == old(buf)@.len(),
            buf@.subrange(0, i as int) == vfs.archive.data_view().subrange(start as int, start + i),
        decreases to_read - i,
    {
        let ghost pb = buf@;
        buf[i] = vfs.archive.byte_at(start + i);
        proof {
            assert forall|k: int| 0 <= k < i + 1 implies buf@[k] == vfs.archive.data_view()[start + k] by {
                if k < i {
                    assert(pb.subrange(0, i as int)[k] == vfs.archive.data_view().subrange(start as int, start + i)[k]);
                }
            }
            assert(buf@.subrange(0, i + 1) =~= vfs.archive.data_view().subrange(start as int, start + i + 1));
        }
        i = i + 1;
    }
    vfs.table.set_offset(fd.0, off + to_read);
    Ok(to_read)
}

/// Closes `fd`.
pub fn close(vfs: &mut Vfs, fd: FileDescriptor) -> (r: Result<(), VfsError>)
    requires
        old(vfs).wf(),
    ensures
        final(vfs).wf(),
        final(vfs).archive.entries_view() == old(vfs).archive.entries_view(),
        final(vfs).archive.data_view() == old(vfs).archive.data_view(),
        fd.0 < 3 ==> r == Err::<(), VfsError>(VfsError::CannotCloseStandardStream),
        3 <= fd.0 < MAX_OPEN_FILES && old(vfs).table.slots()[fd.0 as int] is Some ==> r is Ok
            && final(vfs).table.slots() == old(vfs).table.slots().update(fd.0 as int, None),
        3 <= fd.0 < MAX_OPEN_FILES && old(vfs).table.slots()[fd.0 as int] is None ==> r == Err::<(), VfsError>(
            VfsError::NotOpen,
        ),
        fd.0 >= MAX_OPEN_FILES ==> r == Err::<(), VfsError>(VfsError::InvalidFileDescriptor),
{
    vfs.table.close(fd)
}

} // verus!
