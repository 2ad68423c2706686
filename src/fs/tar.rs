//! Read-only USTAR archives: 512-byte headers, each followed by its data
//! padded to whole blocks, ended by a zero block.
use vstd::prelude::*;
use crate::text::{chars_of, decode_utf8, str_eq, trim_str, trimmed, utf8_decode};

verus! {

pub const USTAR_BLOCK_SIZE: usize = 512;

/// Offsets of the header fields the archive reads.
pub const NAME_LEN: usize = 100;
pub const SIZE_OFFSET: usize = 124;
pub const SIZE_LEN: usize = 12;
pub const TYPEFLAG_OFFSET: usize = 156;
pub const MAGIC_OFFSET: usize = 257;

/// Layout of a USTAR header block.
#[derive(Clone, Copy, Debug)]
pub struct UstarHeader {
    pub name: [u8; 100],
    pub mode: [u8; 8],
    pub uid: [u8; 8],
    pub gid: [u8; 8],
    pub size: [u8; 12],
    pub mtime: [u8; 12],
    pub checksum: [u8; 8],
    pub typeflag: u8,
    pub linkname: [u8; 100],
    pub magic: [u8; 6],
    pub version: [u8; 2],
    pub uname: [u8; 32],
    pub gname: [u8; 32],
    pub devmajor: [u8; 8],
    pub devminor: [u8; 8],
    pub prefix: [u8; 155],
    pub pad: [u8; 12],
}

#[derive(Clone, Copy, Debug, PartialEq, Eq, Structural)]
pub enum FileType {
    Normal,
    Directory,
}

#[derive(Clone, Copy, Debug, PartialEq, Eq, Structural)]
pub enum TarError {
    InvalidUtf8,
    InvalidOctalDigit,
    OctalOverflow,
}

/// Bytes before the first zero byte.
pub open spec fn cstr_bytes(b: Seq<u8>) -> Seq<u8>
    decreases b.len(),
{
    if b.len() == 0 {
        b
    } else if b[0] == 0 {
        Seq::empty()
    } else {
        seq![b[0]] + cstr_bytes(b.drop_first())
    }
}

/// Value of a run of octal digits.
pub open spec fn octal_value(s: Seq<char>) -> int
    decreases s.len(),
{
    if s.len() == 0 {
        0
    } else {
        octal_value(s.drop_last()) * 8 + ((s.last() as u32) - ('0' as u32))
    }
}

pub open spec fn is_octal_digit(c: char) -> bool {
    '0' <= c <= '7'
}

/// What an octal header field holds: the trimmed text before its first
/// zero byte, read in base 8 (empty is 0).
pub open spec fn octal_field(b: Seq<u8>) -> Result<int, TarError> {
    match utf8_decode(cstr_bytes(b)) {
        None => Err(TarError::InvalidUtf8),
        Some(t) => {
            let s = trimmed(t);
            if !(forall|i: int| 0 <= i < s.len() ==> is_octal_digit(#[trigger] s[i])) {
                Err(TarError::InvalidOctalDigit)
            } else if octal_value(s) > usize::MAX {
                Err(TarError::OctalOverflow)
            } else {
                Ok(octal_value(s))
            }
        },
    }
}

/// The bytes of `b` before the first zero byte.
fn cstr_prefix(b: &[u8]) -> (r: Vec<u8>)
    ensures
        r@ == cstr_bytes(b@),
{
    let n = b.len();
    let mut i: usize = 0;
    let mut out: Vec<u8> = Vec::new();
    assert(b@.subrange(0, n as int) =~= b@);
    assert(out@ + cstr_bytes(b@) =~= cstr_bytes(b@));
    while i < n && b[i] != 0
        invariant
            n == b@.len(),
            i <= n,
            out@ == b@.subrange(0, i as int),
            forall|k: int| 0 <= k < i ==> b@[k] != 0,
            cstr_bytes(b@) == out@ + cstr_bytes(b@.subrange(i as int, n as int)),
        decreases n - i,
    {
        proof {
            let t = b@.subrange(i as int, n as int);
            assert(t.drop_first() =~= b@.subrange(i + 1, n as int));
            assert(out@ + (seq![t[0]] + cstr_bytes(t.drop_first())) =~= out@.push(b@[i as int]) + cstr_bytes(
                b@.subrange(i + 1, n as int),
            ));
        }
        out.push(b[i]);
        i = i + 1;
        assert(out@ =~= b@.subrange(0, i as int));
    }
    proof {
        let t = b@.subrange(i as int, n as int);
        if i < n {
            assert(t[0] == 0);
        } else {
            assert(t.len() == 0);
        }
        assert(out@ + cstr_bytes(t) =~= out@);
    }
    out
}

/// Parses a zero-terminated octal header field.
pub fn parse_octal(bytes: &[u8]) -> (r: Result<usize, TarError>)
    ensures
        match r {
            Ok(v) => octal_field(bytes@) == Ok::<int, TarError>(v as int),
            Err(e) => octal_field(bytes@) == Err::<int, TarError>(e),
        },
{
    let raw = cstr_prefix(bytes);
    let text = match decode_utf8(raw.as_slice()) {
        Some(t) => t,
        None => {
            return Err(TarError::InvalidUtf8);
        },
    };
    let t = trim_str(text.as_str());
    let cs = chars_of(t.as_str());
    let ghost s = cs@;
    let mut result: usize = 0;
    let mut i: usize = 0;
    let mut overflow = false;
    while i < cs.len()
        invariant
            s == cs@,
            s == trimmed(text@),
            utf8_decode(cstr_bytes(bytes@)) == Some(text@),
            i <= cs@.len(),
            forall|k: int| 0 <= k < i ==> is_octal_digit(#[trigger] cs@[k]),
            !overflow ==> result == octal_value(cs@.subrange(0, i as int)),
            overflow ==> octal_value(cs@.subrange(0, i as int)) > usize::MAX,
        decreases cs@.len() - i,
    {
        let c = cs[i];
        if !('0' <= c && c <= '7') {
            proof {
                assert(!is_octal_digit(s[i as int]));
                assert(trimmed(text@) == s);
            }
            return Err(TarError::InvalidOctalDigit);
        }
        let d = (c as u32 - '0' as u32) as usize;
        proof {
            let p = cs@.subrange(0, i + 1);
            assert(p.drop_last() =~= cs@.subrange(0, i as int));
        }
        if !overflow {
            if result > (usize::MAX - d) / 8 {
                overflow = true;
                proof {
                    assert(result * 8 + d > usize::MAX) by (nonlinear_arith)
                        requires result > (usize::MAX - d) / 8, d < 8;
                }
            } else {
                proof {
                    assert(result * 8 + d <= usize::MAX) by (nonlinear_arith)
                        requires result <= (usize::MAX - d) / 8, d < 8;
                }
                result = result * 8 + d;
            }
        } else {
            proof {
                let p = cs@.subrange(0, i + 1);
                lemma_octal_nonneg(cs@.subrange(0, i as int));
                assert(octal_value(p) >= octal_value(cs@.subrange(0, i as int)) * 8);
                assert(octal_value(cs@.subrange(0, i as int)) * 8 >= octal_value(cs@.subrange(0, i as int))) by (nonlinear_arith)
                    requires octal_value(cs@.subrange(0, i as int)) >= 0;
            }
        }
        i = i + 1;
    }
    proof {
        assert(cs@.subrange(0, cs@.len() as int) =~= cs@);
    }
    if overflow {
        return Err(TarError::OctalOverflow);
    }
    Ok(result)
}

proof fn lemma_octal_nonneg(s: Seq<char>)
    requires
        forall|i: int| 0 <= i < s.len() ==> is_octal_digit(#[trigger] s[i]),
    ensures
        octal_value(s) >= 0,
    decreases s.len(),
{
    if s.len() > 0 {
        lemma_octal_nonneg(s.drop_last());
        assert(is_octal_digit(s.last()));
    }
}

#[derive(Clone, Debug)]
pub struct TarEntry {
    pub name: String,
    pub size: usize,
    /// Offset of the entry's data in the archive.
    pub offset: usize,
    pub file_type: FileType,
}

/// An entry as plain values: name, size, data offset, type.
pub type EntryModel = (Seq<char>, int, int, FileType);

impl TarEntry {
    pub open spec fn model(&self) -> EntryModel {
        (self.name@, self.size as int, self.offset as int, self.file_type)
    }
}

/// Whether the 512 bytes at `off` are all zero.
pub open spec fn zero_block(d: Seq<u8>, off: int) -> bool {
    forall|i: int| off <= i < off + 512 ==> d[i] == 0
}

/// Whether the header at `off` carries the `ustar` magic.
pub open spec fn has_magic(d: Seq<u8>, off: int) -> bool {
    let m = off + MAGIC_OFFSET;
    d[m] == 0x75 && d[m + 1] == 0x73 && d[m + 2] == 0x74 && d[m + 3] == 0x61 && d[m + 4] == 0x72
}

pub open spec fn type_of_flag(f: u8) -> FileType {
    if f == 0x35 {
        FileType::Directory
    } else {
        FileType::Normal
    }
}

/// Start of the header after an entry at `off` with `size` data bytes; the
/// end of the archive when the data would run past it.
pub open spec fn next_header(d: Seq<u8>, off: int, size: int) -> int {
    if size > d.len() {
        d.len() as int
    } else {
        off + 512 + (size + 511) / 512 * 512
    }
}

/// Prepends `e` to a successful list.
pub open spec fn cons_ok(e: EntryModel, rest: Result<Seq<EntryModel>, TarError>) -> Result<Seq<EntryModel>, TarError> {
    match rest {
        Ok(es) => Ok(seq![e] + es),
        Err(x) => Err(x),
    }
}

/// The entries of the archive `d` from the header at `off` on. Parsing
/// stops at the end of the data, at a zero block, or at a block without
/// the magic.
pub open spec fn tar_entries(d: Seq<u8>, off: int) -> Result<Seq<EntryModel>, TarError>
    decreases d.len() - off,
{
    if off < 0 || off + 512 > d.len() || zero_block(d, off) || !has_magic(d, off) {
        Ok(Seq::empty())
    } else {
        match utf8_decode(cstr_bytes(d.subrange(off, off + 100))) {
            None => Err(TarError::InvalidUtf8),
            Some(name) => match octal_field(d.subrange(off + 124, off + 136)) {
                Err(e) => Err(e),
                Ok(size) => {
                    let next = next_header(d, off, size);
                    let e = (name, size, off + 512, type_of_flag(d[off + 156]));
                    if off < next <= d.len() {
                        cons_ok(e, tar_entries(d, next))
                    } else {
                        Ok(seq![e])
                    }
                },
            },
        }
    }
}

/// An archive held in memory and its parsed entries.
pub struct TarArchive {
    data: Vec<u8>,
    entries: Vec<TarEntry>,
}

/// A copy of `b[from..to]`.
fn copy_range(b: &Vec<u8>, from: usize, to: usize) -> (r: Vec<u8>)
    requires
        from <= to <= b@.len(),
    ensures
        r@ == b@.subrange(from as int, to as int),
{
    let mut out: Vec<u8> = Vec::new();
    let mut i = from;
    while i < to
        invariant
            from <= i <= to <= b@.len(),
            out@ == b@.subrange(from as int, i as int),
        decreases to - i,
    {
        out.push(b[i]);
        i = i + 1;
        assert(out@ =~= b@.subrange(from as int, i as int));
    }
    out
}

fn is_zero_block(d: &Vec<u8>, off: usize) -> (r: bool)
    requires
        off + 512 <= d@.len(),
    ensures
        r == zero_block(d@, off as int),
{
    let n = d.len();
    let mut i: usize = 0;
    while i < 512
        invariant
            n == d@.len(),
            off + 512 <= d@.len(),
            i <= 512,
            forall|k: int| off <= k < off + i ==> d@[k] == 0,
        decreases 512 - i,
    {
        if d[off + i] != 0 {
            return false;
        }
        i = i + 1;
    }
    true
}

pub open spec fn models(es: Seq<TarEntry>) -> Seq<EntryModel> {
    es.map_values(|e: TarEntry| e.model())
}

impl TarArchive {
    pub closed spec fn data_view(&self) -> Seq<u8> {
        self.data@
    }

    pub closed spec fn entries_view(&self) -> Seq<EntryModel> {
        models(self.entries@)
    }

    /// Parses the archive in `data`.
    pub fn new(data: Vec<u8>) -> (r: Result<Self, TarError>)
        ensures
            match r {
                Ok(a) => tar_entries(data@, 0) == Ok::<Seq<EntryModel>, TarError>(a.entries_view()) && a.data_view() == data@,
                Err(e) => tar_entries(data@, 0) == Err::<Seq<EntryModel>, TarError>(e),
            },
    {
        let n = data.len();
        let mut entries: Vec<TarEntry> = Vec::new();
        let mut offset: usize = 0;
        while offset <= n && n - offset >= USTAR_BLOCK_SIZE
            invariant_except_break
                tar_entries(data@, 0) == (match tar_entries(data@, offset as int) {
                    Ok(es) => Ok(models(entries@) + es),
                    Err(x) => Err(x),
                }),
            invariant
                n == data@.len(),
                offset <= n,
            ensures
                tar_entries(data@, 0) == Ok::<Seq<EntryModel>, TarError>(models(entries@)),
            decreases n - offset,
        {
            if is_zero_block(&data, offset) {
                assert(models(entries@) + Seq::<EntryModel>::empty() =~= models(entries@));
                break;
            }
            let m = offset + MAGIC_OFFSET;
            if !(data[m] == 0x75 && data[m + 1] == 0x73 && data[m + 2] == 0x74 && data[m + 3] == 0x61 && data[m + 4] == 0x72) {
                assert(models(entries@) + Seq::<EntryModel>::empty() =~= models(entries@));
                break;
            }
            let raw_name = cstr_prefix(copy_range(&data, offset, offset + NAME_LEN).as_slice());
            let name = match decode_utf8(raw_name.as_slice()) {
                Some(s) => s,
                None => {
                    return Err(TarError::InvalidUtf8);
                },
            };
            let size = match parse_octal(copy_range(&data, offset + SIZE_OFFSET, offset + SIZE_OFFSET + SIZE_LEN).as_slice()) {
                Ok(v) => v,
                Err(e) => {
                    return Err(e);
                },
            };
            let file_type = if data[offset + TYPEFLAG_OFFSET] == 0x35 {
                FileType::Directory
            } else {
                FileType::Normal
            };
            let data_offset = offset + USTAR_BLOCK_SIZE;
            let next_wide: u128 = if size > n {
                n as u128
            } else {
                data_offset as u128 + (size as u128 + 511) / 512 * 512
            };
            proof {
                assert(next_wide == next_header(data@, offset as int, size as int));
                assert((size as int + 511) / 512 * 512 >= 0) by (nonlinear_arith)
                    requires size >= 0;
                assert(next_wide > offset);
            }
            let ghost prev = models(entries@);
            let entry = TarEntry { name, size, offset: data_offset, file_type };
            entries.push(entry);
            proof {
                assert(models(entries@) =~= prev.push(entry.model()));
                if next_wide <= n {
                    match tar_entries(data@, next_wide as int) {
                        Ok(es) => {
                            assert(prev.push(entry.model()) + es =~= prev + (seq![entry.model()] + es));
                        },
                        Err(_) => {},
                    }
                } else {
                    assert(prev + seq![entry.model()] =~= prev.push(entry.model()));
                }
            }
            if next_wide > n as u128 {
                break;
            }
            offset = next_wide as usize;
        }
        Ok(TarArchive { data, entries })
    }
}

/// Position of the first regular file named `path` at or after `from`.
pub open spec fn file_index(es: Seq<EntryModel>, path: Seq<char>, from: int) -> Option<int>
    decreases es.len() - from,
{
    if from < 0 || from >= es.len() {
        None
    } else if es[from].0 == path && es[from].3 == FileType::Normal {
        Some(from)
    } else {
        file_index(es, path, from + 1)
    }
}

/// The regular files among the entries, in order.
pub open spec fn regular_files(es: Seq<EntryModel>) -> Seq<EntryModel>
    decreases es.len(),
{
    if es.len() == 0 {
        es
    } else if es.last().3 == FileType::Normal {
        regular_files(es.drop_last()).push(es.last())
    } else {
        regular_files(es.drop_last())
    }
}

/// A copy of an entry.
fn copy_entry(e: &TarEntry) -> (r: TarEntry)
    ensures
        r.model() == e.model(),
{
    TarEntry { name: e.name.clone(), size: e.size, offset: e.offset, file_type: e.file_type }
}

impl TarArchive {
    /// The first regular file named `path`.
    pub fn find_file(&self, path: &str) -> (r: Option<&TarEntry>)
        ensures
            match file_index(self.entries_view(), path@, 0) {
                Some(i) => r matches Some(e) && e.model() == self.entries_view()[i],
                None => r is None,
            },
    {
        let mut i: usize = 0;
        while i < self.entries.len()
            invariant
                i <= self.entries@.len(),
                file_index(self.entries_view(), path@, 0) == file_index(self.entries_view(), path@, i as int),
            decreases self.entries@.len() - i,
        {
            let e = &self.entries[i];
            if str_eq(e.name.as_str(), path) && e.file_type == FileType::Normal {
                return Some(e);
            }
            i = i + 1;
        }
        None
    }

    /// The regular files, in archive order.
    pub fn list_files(&self) -> (r: Vec<TarEntry>)
        ensures
            models(r@) == regular_files(self.entries_view()),
    {
        let mut out: Vec<TarEntry> = Vec::new();
        let mut i: usize = 0;
        while i < self.entries.len()
            invariant
                i <= self.entries@.len(),
                models(out@) == regular_files(self.entries_view().subrange(0, i as int)),
            decreases self.entries@.len() - i,
        {
            let ghost prev = models(out@);
            let e = &self.entries[i];
            proof {
                let es = self.entries_view().subrange(0, i + 1);
                assert(es.drop_last() =~= self.entries_view().subrange(0, i as int));
                assert(es.last() == e.model());
            }
            if e.file_type == FileType::Normal {
                out.push(copy_entry(e));
                assert(models(out@) =~= prev.push(e.model()));
            }
            i = i + 1;
        }
        assert(self.entries_view().subrange(0, self.entries@.len() as int) =~= self.entries_view());
        out
    }

    /// The data of an entry; empty when it would run past the archive.
    pub fn read_file(&self, entry: &TarEntry) -> (r: Vec<u8>)
        ensures
            entry.offset + entry.size <= self.data_view().len() ==> r@ == self.data_view().subrange(
                entry.offset as int,
                entry.offset + entry.size,
            ),
            entry.offset + entry.size > self.data_view().len() ==> r@.len() == 0,
    {
        if entry.offset > self.data.len() || entry.size > self.data.len() - entry.offset {
            return Vec::new();
        }
        copy_range(&self.data, entry.offset, entry.offset + entry.size)
    }

    /// Length of the archive in bytes.
    pub fn data_len(&self) -> (r: usize)
        ensures
            r == self.data_view().len(),
    {
        self.data.len()
    }

    /// Byte `i` of the archive.
    pub fn byte_at(&self, i: usize) -> (r: u8)
        requires
            i < self.data_view().len(),
        ensures
            r == self.data_view()[i as int],
    {
        self.data[i]
    }

    /// Number of entries, directories included.
    pub fn entry_count(&self) -> (r: usize)
        ensures
            r == self.entries_view().len(),
    {
        self.entries.len()
    }
}

} // verus!
