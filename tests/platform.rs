use astra_kernel::platform::command::{Command, ExitStatus, Stdio};
use astra_kernel::platform::errno::decode_error_kind;
use astra_kernel::platform::fs::{readdir, File, OpenOptions, SeekFrom};
use astra_kernel::platform::io_error::{unsupported_err, ErrorKind, IoError};
use astra_kernel::platform::net::{lookup_host, TcpStream};
use astra_kernel::platform::os::{error_string, join_paths, split_paths};
use astra_kernel::platform::path::is_sep_byte;
use astra_kernel::platform::time::{Duration, Instant, SystemTime, TickCounter};

#[test]
fn files_of_the_builtin_fs() {
    let opts = OpenOptions::new();
    let mut f = File::open("/test.html", &opts).unwrap();
    let mut buf = [0u8; 15];
    assert_eq!(f.read(&mut buf).unwrap(), 15);
    assert_eq!(&buf, b"<!DOCTYPE html>");
    assert_eq!(f.seek(SeekFrom::End(-7)).unwrap(), 52);
    let mut rest = [0u8; 10];
    assert_eq!(f.read(&mut rest).unwrap(), 7);
    assert_eq!(&rest[..7], b"</html>");
    assert_eq!(f.read(&mut rest).unwrap(), 0);
    assert_eq!(f.seek(SeekFrom::Current(-100)).unwrap_err().kind, ErrorKind::InvalidInput);
    assert_eq!(f.file_attr().unwrap().size(), 59);
    assert_eq!(File::open("nope.html", &opts).err().unwrap().kind, ErrorKind::NotFound);
    let index = File::open("index.html", &opts).unwrap();
    assert!(index.content.starts_with(b"<!DOCTYPE html>"));
    assert_eq!(index.duplicate().unwrap().content, index.content);
    let mut dir = readdir("/").unwrap();
    assert_eq!(dir.next().unwrap().unwrap().file_name(), "index.html");
    assert_eq!(dir.next().unwrap().unwrap().path(), "test.html");
    assert!(dir.next().is_none());
}

#[test]
fn sockets_are_unsupported() {
    assert_eq!(lookup_host("example.com").err(), Some(unsupported_err()));
    assert_eq!(TcpStream.take_error(), Ok(None));
    assert_eq!(TcpStream.nodelay(), Err(IoError { kind: ErrorKind::Unsupported }));
}

#[test]
fn clock_arithmetic() {
    let mut clock = TickCounter::new();
    let start = Instant::now(&clock);
    for _ in 0..1500 {
        clock.tick();
    }
    let d = start.elapsed(&clock);
    assert_eq!((d.as_secs(), d.as_millis()), (1, 1500));
    assert_eq!(start.checked_sub_instant(&Instant::now(&clock)), None);
    assert_eq!(start.checked_add_duration(&Duration::from_millis(20)), Some(Instant { ticks: 20 }));
    assert_eq!(start.checked_sub_duration(&Duration::from_secs(1)), None);
    let now = SystemTime::now();
    assert_eq!(now.sub_time(&SystemTime { seconds: 0 }).unwrap().as_secs(), now.seconds);
    assert!(SystemTime { seconds: 0 }.sub_time(&now).is_err());
    assert_eq!(SystemTime { seconds: u64::MAX }.checked_add_duration(&Duration::from_secs(1)), None);
}

#[test]
fn paths_and_errors() {
    assert!(is_sep_byte(b'/'));
    assert!(!is_sep_byte(b'\\'));
    let joined = join_paths(&vec![String::from("/bin"), String::from("/usr/bin")]).unwrap();
    assert_eq!(joined, "/bin:/usr/bin");
    let mut sp = split_paths("/bin:/sbin");
    assert_eq!(sp.next(), Some(String::from("/bin:/sbin")));
    assert_eq!(sp.next(), None);
    assert_eq!(error_string(-12), "error code -12");
    assert_eq!(error_string(305), "error code 305");
    assert_eq!(decode_error_kind(2), ErrorKind::NotFound);
    assert_eq!(decode_error_kind(99), ErrorKind::Uncategorized);
    let mut c = Command::new("ls");
    c.arg("-l");
    c.stdout(Stdio::piped());
    assert_eq!(c.program, "ls");
    assert!(ExitStatus { code: 0 }.success());
    assert_eq!(ExitStatus { code: 3 }.code(), Some(3));
}
