use astra_kernel::network::url::Url;
use astra_kernel::resource::{LoadError, ResourceLoader, ResourceType};
use astra_kernel::fs::tar::{parse_octal, FileType, TarArchive, TarError};
use astra_kernel::fs::vfs::{close, init, open, read, FileDescriptor, FileTable, OpenFile, VfsError};
use astra_kernel::keyboard::KeyboardBuffer;

fn header(name: &str, size: usize, flag: u8) -> Vec<u8> {
    let mut h = vec![0u8; 512];
    h[..name.len()].copy_from_slice(name.as_bytes());
    let sz = format!("{:011o}", size);
    h[124..135].copy_from_slice(sz.as_bytes());
    h[156] = flag;
    h[257..262].copy_from_slice(b"ustar");
    h
}

fn archive() -> Vec<u8> {
    let mut d = header("dir/", 0, b'5');
    d.extend(header("hello.txt", 5, b'0'));
    let mut block = vec![0u8; 512];
    block[..5].copy_from_slice(b"hello");
    d.extend(block);
    d.extend(header("big.bin", 600, 0));
    d.extend(vec![7u8; 1024]);
    d.extend(vec![0u8; 1024]);
    d
}

#[test]
fn test_parse_octal() {
    assert_eq!(parse_octal(b"755\0"), Ok(0o755));
    assert_eq!(parse_octal(b"0000644\0"), Ok(0o644));
    assert_eq!(parse_octal(b"100\0"), Ok(0o100));
}

#[test]
fn octal_edge_cases() {
    assert_eq!(parse_octal(b"\0\0\0"), Ok(0));
    assert_eq!(parse_octal(b" 17 \0junk"), Ok(15));
    assert_eq!(parse_octal(b"8\0"), Err(TarError::InvalidOctalDigit));
    assert_eq!(parse_octal(b"\xff\0"), Err(TarError::InvalidUtf8));
    assert_eq!(parse_octal(b"7777777777777777777777777\0"), Err(TarError::OctalOverflow));
}

#[test]
fn archive_entries() {
    let a = TarArchive::new(archive()).unwrap();
    assert_eq!(a.entry_count(), 3);
    let files = a.list_files();
    assert_eq!(files.len(), 2);
    assert_eq!(files[0].name, "hello.txt");
    assert_eq!(files[1].name, "big.bin");
    let hello = a.find_file("hello.txt").unwrap();
    assert_eq!((hello.size, hello.offset, hello.file_type), (5, 1024, FileType::Normal));
    assert_eq!(a.read_file(hello), b"hello".to_vec());
    assert!(a.find_file("dir/").is_none());
    assert_eq!(a.read_file(a.find_file("big.bin").unwrap()), vec![7u8; 600]);
    assert_eq!(TarArchive::new(vec![0u8; 100]).unwrap().entry_count(), 0);
}

#[test]
fn open_read_close() {
    let mut vfs = init(archive()).unwrap();
    let mut kb = KeyboardBuffer::new();
    assert_eq!(open(&mut vfs, "missing").unwrap_err(), VfsError::FileNotFound);
    let fd = open(&mut vfs, "hello.txt").unwrap();
    assert_eq!(fd, FileDescriptor(3));
    let mut buf = [0u8; 3];
    assert_eq!(read(&mut vfs, &mut kb, fd, &mut buf), Ok(3));
    assert_eq!(&buf, b"hel");
    assert_eq!(read(&mut vfs, &mut kb, fd, &mut buf), Ok(2));
    assert_eq!(&buf[..2], b"lo");
    assert_eq!(read(&mut vfs, &mut kb, fd, &mut buf), Ok(0));
    assert_eq!(read(&mut vfs, &mut kb, FileDescriptor(0), &mut buf), Ok(0));
    kb.push(b'k');
    assert_eq!(read(&mut vfs, &mut kb, FileDescriptor(0), &mut buf), Ok(1));
    assert_eq!(buf[0], b'k');
    assert_eq!(close(&mut vfs, fd), Ok(()));
    assert_eq!(close(&mut vfs, fd), Err(VfsError::NotOpen));
    assert_eq!(close(&mut vfs, FileDescriptor(1)), Err(VfsError::CannotCloseStandardStream));
    assert_eq!(read(&mut vfs, &mut kb, fd, &mut buf), Err(VfsError::InvalidFileDescriptor));
}

#[test]
fn file_table_fills_up() {
    let a = TarArchive::new(archive()).unwrap();
    let entry = a.find_file("hello.txt").unwrap();
    let mut t = FileTable::new();
    for i in 3..128 {
        let f = OpenFile { path: String::from("x"), offset: 0, tar_entry: entry.clone() };
        assert_eq!(t.alloc_fd(f), Ok(FileDescriptor(i)));
    }
    let f = OpenFile { path: String::from("x"), offset: 0, tar_entry: entry.clone() };
    assert_eq!(t.alloc_fd(f), Err(VfsError::TooManyOpenFiles));
    assert!(t.get(FileDescriptor(5)).is_some());
    assert!(t.get(FileDescriptor(500)).is_none());
}

#[test]
fn loader_reads_files_and_refuses_http() {
    let mut vfs = init(archive()).unwrap();
    let loader = ResourceLoader::new();
    let r = loader.load(&mut vfs, &Url::parse("file:///big.bin").unwrap()).unwrap();
    assert_eq!(r.data, vec![7u8; 600]);
    assert_eq!(r.resource_type, ResourceType::Unknown);
    let r = loader.load(&mut vfs, &Url::parse("file:///hello.txt").unwrap()).unwrap();
    assert_eq!(r.as_string(), Some(String::from("hello")));
    assert_eq!(
        loader.load(&mut vfs, &Url::parse("http://example.com/").unwrap()).err(),
        Some(LoadError::HttpNotImplemented)
    );
    assert_eq!(loader.load(&mut vfs, &Url::parse("ftp://x/").unwrap()).err(), Some(LoadError::UnsupportedScheme));
    assert_eq!(
        loader.load(&mut vfs, &Url::parse("file:///nope").unwrap()).err(),
        Some(LoadError::File(VfsError::FileNotFound))
    );
}
