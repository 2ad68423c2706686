//! The built-in read-only file system: two HTML documents at the root.
use vstd::prelude::*;
use vstd::string::StringSliceAdditionalSpecFns;
use crate::platform::io_error::{ErrorKind, IoError, IoResult, unsupported, unsupported_error};
use crate::platform::time::SystemTime;
use crate::text::{chars_of, rfind_before, rfind_char, slice_chars, str_eq, vec_to_string};

verus! {

/// The start page.
pub const INDEX_HTML: &'static str = r#"<!DOCTYPE html>
<html>
<head>
    <title>ASTRA.OS</title>
    <style>
        body {
            font-family: sans-serif;
            background: #1a1a2e;
            color: #eee;
            padding: 20px;
        }
        h1 {
            color: #00d9ff;
            font-size: 48px;
        }
        p {
            font-size: 20px;
            line-height: 1.6;
        }
    </style>
</head>
<body>
    <h1>ASTRA.OS</h1>
    <p>Advanced System for Tomorrow's Revolutionary Applications</p>
    <p>Powered by <strong>Servo</strong> browser engine</p>
    <p>Built with Rust 🦀 from kernel to userspace</p>
</body>
</html>
"#;

/// A minimal test page.
pub const TEST_HTML: &'static str = "<!DOCTYPE html><html><body><h1>Test Page</h1></body></html>";

/// Which built-in document a path names.
pub open spec fn document_of(path: Seq<char>) -> Option<Seq<u8>> {
    if path == "/index.html"@ || path == "index.html"@ {
        Some(INDEX_HTML.spec_bytes())
    } else if path == "/test.html"@ || path == "test.html"@ {
        Some(TEST_HTML.spec_bytes())
    } else {
        None
    }
}

fn bytes_of(s: &str) -> (r: Vec<u8>)
    ensures
        r@ == s.spec_bytes(),
{
    let b = s.as_bytes();
    let mut v: Vec<u8> = Vec::new();
    let mut i: usize = 0;
    while i < b.len()
        invariant
            b@ == s.spec_bytes(),
            i <= b@.len(),
            v@ == b@.subrange(0, i as int),
        decreases b@.len() - i,
    {
        v.push(b[i]);
        i = i + 1;
        assert(v@ =~= b@.subrange(0, i as int));
    }
    assert(b@.subrange(0, b@.len() as int) =~= b@);
    v
}

#[derive(Clone, Copy, Debug, PartialEq, Eq, Structural)]
pub enum SeekFrom {
    Start(u64),
    End(i64),
    Current(i64),
}

/// An open built-in document and a read position.
pub struct File {
    pub path: String,
    pub content: Vec<u8>,
    pub position: u64,
}

impl File {
    /// Opens a built-in document; any other path is not found.
    pub fn open(path: &str, opts: &OpenOptions) -> (r: IoResult<File>)
        ensures
            match document_of(path@) {
                Some(d) => r matches Ok(f) && f.path@ == path@ && f.content@ == d && f.position == 0,
                None => r == Err::<File, IoError>(IoError { kind: ErrorKind::NotFound }),
            },
    {
        let a = "/index.html";
        let b = "index.html";
        let c = "/test.html";
        let d = "test.html";
        let content = if str_eq(path, a) || str_eq(path, b) {
            bytes_of(INDEX_HTML)
        } else if str_eq(path, c) || str_eq(path, d) {
            bytes_of(TEST_HTML)
        } else {
            return Err(IoError { kind: ErrorKind::NotFound });
        };
        Ok(File { path: String::from_str(path), content, position: 0 })
    }

    /// Size of the document.
    pub fn file_attr(&self) -> (r: IoResult<FileAttr>)
        ensures
            r == Ok::<FileAttr, IoError>(FileAttr { size: self.content@.len() as u64 }),
    {
        Ok(FileAttr { size: self.content.len() as u64 })
    }

    /// Nothing to write back.
    pub fn fsync(&self) -> (r: IoResult<()>)
        ensures
            r == Ok::<(), IoError>(()),
    {
        Ok(())
    }

    /// Nothing to write back.
    pub fn datasync(&self) -> (r: IoResult<()>)
        ensures
            r == Ok::<(), IoError>(()),
    {
        Ok(())
    }

    /// The file system is read-only.
    pub fn truncate(&mut self, size: u64) -> (r: IoResult<()>)
        ensures
            r == Err::<(), IoError>(unsupported_error()),
            final(self).content@ == old(self).content@,
            final(self).position == old(self).position,
    {
        unsupported()
    }

    /// Copies bytes from the read position into `buf` and advances past
    /// them; at or past the end, nothing is read.
    pub fn read(&mut self, buf: &mut [u8]) -> (r: IoResult<usize>)
        ensures
            ({
                let len = old(self).content@.len() as int;
                let pos = old(self).position as int;
                let n = if pos >= len { 0 } else { vstd::math::min(old(buf)@.len() as int, len - pos) };
                &&& r == Ok::<usize, IoError>(n as usize)
                &&& final(self).position == pos + n
                &&& final(self).content@ == old(self).content@
                &&& final(buf)@.len() == old(buf)@.len()
                &&& n > 0 ==> final(buf)@.subrange(0, n) == old(self).content@.subrange(pos, pos + n)
                &&& final(buf)@.subrange(n, old(buf)@.len() as int) == old(buf)@.subrange(n, old(buf)@.len() as int)
            }),
    {
        let len = self.content.len() as u64;
        if self.position >= len {
            assert(buf@.subrange(0, buf@.len() as int) =~= old(buf)@.subrange(0, old(buf)@.len() as int));
            return Ok(0);
        }
        let start = self.position as usize;
        let clen = self.content.len();
        let remaining = clen - start;
        let to_read = if buf.len() < remaining { buf.len() } else { remaining };
        let mut i: usize = 0;
        while i < to_read
            invariant
                i <= to_read,
                to_read <= buf@.len(),
                start + to_read <= self.content@.len(),
                clen == self.content@.len(),
                buf@.len() == old(buf)@.len(),
                buf@.subrange(0, i as int) == self.content@.subrange(start as int, start + i),
                buf@.subrange(i as int, buf@.len() as int) == old(buf)@.subrange(i as int, old(buf)@.len() as int),
            decreases to_read - i,
        {
            let ghost pb = buf@;
            buf[i] = self.content[start + i];
            proof {
                assert forall|k: int| 0 <= k < i + 1 implies buf@[k] == self.content@[start + k] by {
                    if k < i {
                        assert(pb.subrange(0, i as int)[k] == self.content@.subrange(start as int, start + i)[k]);
                    }
                }
                assert(buf@.subrange(0, i + 1) =~= self.content@.subrange(start as int, start + i + 1));
                assert forall|k: int| i + 1 <= k < buf@.len() implies buf@[k] == old(buf)@[k] by {
                    assert(pb.subrange(i as int, pb.len() as int)[k - i] == old(buf)@.subrange(i as int, old(buf)@.len() as int)[k - i]);
                }
                assert(buf@.subrange(i + 1, buf@.len() as int) =~= old(buf)@.subrange(i + 1, old(buf)@.len() as int));
            }
            i = i + 1;
        }
        self.position = self.position + to_read as u64;
        Ok(to_read)
    }

    /// The file system is read-only.
    pub fn write(&mut self, buf: &[u8]) -> (r: IoResult<usize>)
        ensures
            r == Err::<usize, IoError>(unsupported_error()),
            final(self).content@ == old(self).content@,
            final(self).position == old(self).position,
    {
        unsupported()
    }

    /// Nothing is buffered.
    pub fn flush(&mut self) -> (r: IoResult<()>)
        ensures
            r == Ok::<(), IoError>(()),
            final(self).content@ == old(self).content@,
            final(self).position == old(self).position,
    {
        Ok(())
    }

    /// Moves the read position; a position before the start (or one that
    /// overflows) is invalid input and leaves the position alone.
    pub fn seek(&mut self, pos: SeekFrom) -> (r: IoResult<u64>)
        ensures
            final(self).content@ == old(self).content@,
            ({
                let target: int = match pos {
                    SeekFrom::Start(o) => if o <= i64::MAX { o as int } else { -1 },
                    SeekFrom::End(o) => if old(self).content@.len() <= i64::MAX {
                        old(self).content@.len() + o
                    } else {
                        -1
                    },
                    SeekFrom::Current(o) => if old(self).position <= i64::MAX {
                        old(self).position + o
                    } else {
                        -1
                    },
                };
                &&& 0 <= target <= i64::MAX ==> r == Ok::<u64, IoError>(target as u64) && final(self).position == target
                &&& !(0 <= target <= i64::MAX) ==> r == Err::<u64, IoError>(IoError { kind: ErrorKind::InvalidInput })
                    && final(self).position == old(self).position
            }),
    {
        let len = self.content.len() as u64;
        let target: Option<i64> = match pos {
            SeekFrom::Start(o) => if o <= i64::MAX as u64 { Some(o as i64) } else { None },
            SeekFrom::End(o) => if len <= i64::MAX as u64 { (len as i64).checked_add(o) } else { None },
            SeekFrom::Current(o) => if self.position <= i64::MAX as u64 { (self.position as i64).checked_add(o) } else { None },
        };
        match target {
            Some(t) => {
                if t < 0 {
                    return Err(IoError { kind: ErrorKind::InvalidInput });
                }
                self.position = t as u64;
                Ok(t as u64)
            },
            None => Err(IoError { kind: ErrorKind::InvalidInput }),
        }
    }

    /// A second handle on the same document, reading from the start.
    pub fn duplicate(&self) -> (r: IoResult<File>)
        ensures
            r matches Ok(f) && f.path@ == self.path@ && f.content@ == self.content@ && f.position == 0,
    {
        let mut content: Vec<u8> = Vec::new();
        let mut i: usize = 0;
        while i < self.content.len()
            invariant
                i <= self.content@.len(),
                content@ == self.content@.subrange(0, i as int),
            decreases self.content@.len() - i,
        {
            content.push(self.content[i]);
            i = i + 1;
            assert(content@ =~= self.content@.subrange(0, i as int));
        }
        assert(self.content@.subrange(0, self.content@.len() as int) =~= self.content@);
        Ok(File { path: self.path.clone(), content, position: 0 })
    }

    /// Permissions cannot change.
    pub fn set_permissions(&self, perm: FilePermissions) -> (r: IoResult<()>)
        ensures
            r == Err::<(), IoError>(unsupported_error()),
    {
        unsupported()
    }
}

#[derive(Clone, Copy, Debug, PartialEq, Eq, Structural)]
pub struct FileAttr {
    pub size: u64,
}

impl FileAttr {
    pub fn size(&self) -> (r: u64)
        ensures
            r == self.size,
    {
        self.size
    }

    /// Everything is read-only.
    pub fn perm(&self) -> (r: FilePermissions)
        ensures
            r == (FilePermissions { readonly: true }),
    {
        FilePermissions { readonly: true }
    }

    /// Every entry is a regular file.
    pub fn file_type(&self) -> (r: FileType)
        ensures
            r == FileType::File,
    {
        FileType::File
    }

    /// Timestamps are not kept: the epoch.
    pub fn modified(&self) -> (r: IoResult<SystemTime>)
        ensures
            r == Ok::<SystemTime, IoError>(SystemTime { seconds: 0 }),
    {
        Ok(SystemTime { seconds: 0 })
    }

    /// Timestamps are not kept: the epoch.
    pub fn accessed(&self) -> (r: IoResult<SystemTime>)
        ensures
            r == Ok::<SystemTime, IoError>(SystemTime { seconds: 0 }),
    {
        Ok(SystemTime { seconds: 0 })
    }

    /// Timestamps are not kept: the epoch.
    pub fn created(&self) -> (r: IoResult<SystemTime>)
        ensures
            r == Ok::<SystemTime, IoError>(SystemTime { seconds: 0 }),
    {
        Ok(SystemTime { seconds: 0 })
    }
}

#[derive(Clone, Copy, Debug, PartialEq, Eq, Structural)]
pub enum FileType {
    File,
    Dir,
}

impl FileType {
    pub fn is_dir(&self) -> (r: bool)
        ensures
            r == (*self == FileType::Dir),
    {
        match self {
            FileType::Dir => true,
            FileType::File => false,
        }
    }

    pub fn is_file(&self) -> (r: bool)
        ensures
            r == (*self == FileType::File),
    {
        match self {
            FileType::File => true,
            FileType::Dir => false,
        }
    }

    /// There are no links.
    pub fn is_symlink(&self) -> (r: bool)
        ensures
            !r,
    {
        false
    }
}

#[derive(Clone, Copy, Debug, PartialEq, Eq, Structural)]
pub struct FilePermissions {
    pub readonly: bool,
}

impl FilePermissions {
    pub fn readonly(&self) -> (r: bool)
        ensures
            r == self.readonly,
    {
        self.readonly
    }

    /// Everything stays read-only.
    pub fn set_readonly(&mut self, readonly: bool)
        ensures
            *final(self) == *old(self),
    {
    }
}

/// The entries of the root directory, in order.
pub struct ReadDir {
    pub entries: Vec<String>,
    pub index: usize,
}

impl ReadDir {
    /// The next entry, if any.
    pub fn next(&mut self) -> (r: Option<IoResult<DirEntry>>)
        ensures
            final(self).entries@ == old(self).entries@,
            old(self).index >= old(self).entries@.len() ==> r is None && final(self).index == old(self).index,
            old(self).index < old(self).entries@.len() ==> final(self).index == old(self).index + 1 && (r matches Some(
                Ok(e),
            ) && e.path@ == old(self).entries@[old(self).index as int]@),
    {
        if self.index >= self.entries.len() {
            return None;
        }
        let entry = DirEntry { path: self.entries[self.index].clone() };
        self.index = self.index + 1;
        Some(Ok(entry))
    }
}

pub struct DirEntry {
    pub path: String,
}

impl DirEntry {
    pub fn path(&self) -> (r: String)
        ensures
            r@ == self.path@,
    {
        self.path.clone()
    }

    /// The last component of the path.
    pub fn file_name(&self) -> (r: String)
        ensures
            match rfind_before(self.path@, '/', self.path@.len() as int) {
                Some(i) => r@ == self.path@.subrange(i + 1, self.path@.len() as int),
                None => r@ == self.path@,
            },
    {
        let cs = chars_of(self.path.as_str());
        match rfind_char(&cs, '/', 0, cs.len()) {
            Some(i) => vec_to_string(&slice_chars(&cs, i + 1, cs.len())),
            None => vec_to_string(&cs),
        }
    }

    /// Size is not tracked for entries.
    pub fn metadata(&self) -> (r: IoResult<FileAttr>)
        ensures
            r == Ok::<FileAttr, IoError>(FileAttr { size: 0 }),
    {
        Ok(FileAttr { size: 0 })
    }

    pub fn file_type(&self) -> (r: IoResult<FileType>)
        ensures
            r == Ok::<FileType, IoError>(FileType::File),
    {
        Ok(FileType::File)
    }
}

#[derive(Clone, Copy, Debug, PartialEq, Eq, Structural)]
pub struct OpenOptions {
    pub read: bool,
    pub write: bool,
    pub create: bool,
}

impl OpenOptions {
    pub fn new() -> (r: Self)
        ensures
            r == (OpenOptions { read: false, write: false, create: false }),
    {
        OpenOptions { read: false, write: false, create: false }
    }

    pub fn read(&mut self, read: bool)
        ensures
            *final(self) == (OpenOptions { read, ..*old(self) }),
    {
        self.read = read;
    }

    pub fn write(&mut self, write: bool)
        ensures
            *final(self) == (OpenOptions { write, ..*old(self) }),
    {
        self.write = write;
    }

    /// Appending is not recorded.
    pub fn append(&mut self, append: bool)
        ensures
            *final(self) == *old(self),
    {
    }

    /// Truncation is not recorded.
    pub fn truncate(&mut self, truncate: bool)
        ensures
            *final(self) == *old(self),
    {
    }

    pub fn create(&mut self, create: bool)
        ensures
            *final(self) == (OpenOptions { create, ..*old(self) }),
    {
        self.create = create;
    }

    /// Exclusive creation is not recorded.
    pub fn create_new(&mut self, create_new: bool)
        ensures
            *final(self) == *old(self),
    {
    }
}

/// Every directory lists the two built-in documents.
pub fn readdir(p: &str) -> (r: IoResult<ReadDir>)
    ensures
        r matches Ok(d) && d.index == 0 && d.entries@.len() == 2 && d.entries@[0]@ == "index.html"@
            && d.entries@[1]@ == "test.html"@,
{
    let mut entries: Vec<String> = Vec::new();
    entries.push(String::from_str("index.html"));
    entries.push(String::from_str("test.html"));
    Ok(ReadDir { entries, index: 0 })
}

/// Not supported by the built-in file system.
pub fn unlink(p: &str) -> (r: IoResult<()>)
    ensures
        r == Err::<(), IoError>(unsupported_error()),
{
    unsupported()
}

/// Not supported by the built-in file system.
pub fn rename(old_path: &str, new_path: &str) -> (r: IoResult<()>)
    ensures
        r == Err::<(), IoError>(unsupported_error()),
{
    unsupported()
}

/// Not supported by the built-in file system.
pub fn set_perm(p: &str, perm: FilePermissions) -> (r: IoResult<()>)
    ensures
        r == Err::<(), IoError>(unsupported_error()),
{
    unsupported()
}

/// Not supported by the built-in file system.
pub fn rmdir(p: &str) -> (r: IoResult<()>)
    ensures
        r == Err::<(), IoError>(unsupported_error()),
{
    unsupported()
}

/// Not supported by the built-in file system.
pub fn remove_dir_all(path: &str) -> (r: IoResult<()>)
    ensures
        r == Err::<(), IoError>(unsupported_error()),
{
    unsupported()
}

/// Not supported by the built-in file system.
pub fn readlink(p: &str) -> (r: IoResult<String>)
    ensures
        r == Err::<String, IoError>(unsupported_error()),
{
    unsupported()
}

/// Not supported by the built-in file system.
pub fn symlink(target: &str, link_path: &str) -> (r: IoResult<()>)
    ensures
        r == Err::<(), IoError>(unsupported_error()),
{
    unsupported()
}

/// Not supported by the built-in file system.
pub fn link(src: &str, dst: &str) -> (r: IoResult<()>)
    ensures
        r == Err::<(), IoError>(unsupported_error()),
{
    unsupported()
}

/// Not supported by the built-in file system.
pub fn canonicalize(p: &str) -> (r: IoResult<String>)
    ensures
        r == Err::<String, IoError>(unsupported_error()),
{
    unsupported()
}

/// Not supported by the built-in file system.
pub fn copy(from: &str, to: &str) -> (r: IoResult<u64>)
    ensures
        r == Err::<u64, IoError>(unsupported_error()),
{
    unsupported()
}

/// No path is reported to exist.
pub fn try_exists(path: &str) -> (r: IoResult<bool>)
    ensures
        r == Ok::<bool, IoError>(false),
{
    Ok(false)
}

/// Every path reports size 0.
pub fn stat(p: &str) -> (r: IoResult<FileAttr>)
    ensures
        r == Ok::<FileAttr, IoError>(FileAttr { size: 0 }),
{
    Ok(FileAttr { size: 0 })
}

/// Every path reports size 0.
pub fn lstat(p: &str) -> (r: IoResult<FileAttr>)
    ensures
        r == Ok::<FileAttr, IoError>(FileAttr { size: 0 }),
{
    Ok(FileAttr { size: 0 })
}

/// The working directory is always the root.
pub fn getcwd() -> (r: IoResult<String>)
    ensures
        r matches Ok(s) && s@ == "/"@,
{
    Ok(String::from_str("/"))
}

/// Changing directory is accepted and has no effect.
pub fn chdir(p: &str) -> (r: IoResult<()>)
    ensures
        r == Ok::<(), IoError>(()),
{
    Ok(())
}

} // verus!
