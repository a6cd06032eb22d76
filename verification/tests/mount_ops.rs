use std::collections::HashMap;
use unidrive_mount::fuse_fs::attrs::{
    file_attr_from_cached, mtime_now, CachedAttr, FileAttr, FileType, Owner,
};
use unidrive_mount::fuse_fs::directories::{directory_rows_plus, DirectoryEntry, DirectoryEntryPlus};
use unidrive_mount::fuse_fs::errno;
use unidrive_mount::fuse_fs::handles::{Fsync, O_ACCMODE, O_RDWR, O_TRUNC, O_WRONLY};
use unidrive_mount::fuse_fs::listing::{Fetch, Lookup};
use unidrive_mount::fuse_fs::names::{basename, parent_prefix};
use unidrive_mount::fuse_fs::namespace::{S_IFMT, S_IFREG};
use unidrive_mount::fuse_fs::setattr::Setattr;
use unidrive_mount::fuse_fs::volume::{listxattr, removexattr, setxattr, statfs, XAttr};
use unidrive_mount::fuse_fs::UnidriveFs;
use unidrive_mount::ipc::{list_reply, receive, request_line, IpcError, ListEntry, Reply, Request};
use unidrive_mount::path_map::ROOT_INODE;

const OWNER: Owner = Owner { uid: 1000, gid: 1001 };
const NOW: Option<u128> = Some(1_700_000_000_123);

/// A daemon with one canned reply per verb.
struct Daemon {
    replies: HashMap<String, String>,
    recorded: Vec<String>,
}

impl Daemon {
    fn ask(&mut self, req: &Request<String>) -> Reply {
        let line = request_line(req)?;
        let start = line.find("\"verb\":\"").unwrap() + 8;
        let end = line[start..].find('"').unwrap() + start;
        let verb = line[start..end].to_string();
        self.recorded.push(line);
        let none = r#"{"ok":false,"error":"no_canned_reply"}"#.to_string();
        let reply = self.replies.get(&verb).unwrap_or(&none);
        receive(&format!("{reply}\n"))
    }

    fn list(&mut self, prefix: &str) -> Result<Vec<ListEntry>, IpcError> {
        let reply = self.ask(&Request::List { prefix: prefix.to_string() })?;
        list_reply(&reply)
    }

    fn position(&self, verb: &str) -> Option<usize> {
        let needle = format!("\"verb\":\"hydration.{verb}\"");
        self.recorded.iter().position(|r| r.contains(&needle))
    }

    fn count(&self, verb: &str) -> usize {
        let needle = format!("\"verb\":\"hydration.{verb}\"");
        self.recorded.iter().filter(|r| r.contains(&needle)).count()
    }
}

/// A mount with its daemon, and a disk on which the cache lies. What is no
/// file on it cannot be opened.
struct Mount {
    fs: UnidriveFs,
    daemon: Daemon,
    disk: HashMap<String, Vec<u8>>,
    open: HashMap<u64, String>,
}

impl Mount {
    fn new(pairs: &[(&str, &str)]) -> Mount {
        let replies = pairs.iter().map(|(k, v)| (format!("hydration.{k}"), v.to_string())).collect();
        Mount {
            fs: UnidriveFs::new(),
            daemon: Daemon { replies, recorded: vec![] },
            disk: HashMap::new(),
            open: HashMap::new(),
        }
    }

    fn with_file(mut self, path: &str, bytes: &[u8]) -> Mount {
        self.disk.insert(path.to_string(), bytes.to_vec());
        self
    }

    fn lookup(&mut self, parent: u64, name: &str) -> Result<FileAttr, i32> {
        match self.fs.lookup(parent, Some(name), OWNER) {
            Lookup::Done(r) => r,
            Lookup::List { parent_path, child_path } => {
                let listing = self.daemon.list(&parent_path);
                self.fs.lookup_listed(&child_path, listing, OWNER)
            }
        }
    }

    fn getattr(&mut self, inode: u64) -> Result<FileAttr, i32> {
        match self.fs.getattr(inode, OWNER) {
            Fetch::Done(r) => r,
            Fetch::List { prefix } => {
                let listing = self.daemon.list(&prefix);
                self.fs.getattr_listed(inode, listing, OWNER)
            }
        }
    }

    fn readdir(&mut self, parent: u64, offset: i64) -> Result<Vec<DirectoryEntry<String>>, i32> {
        let prefix = self.fs.readdir(parent)?;
        let listing = self.daemon.list(&prefix);
        self.fs.readdir_listed(parent, offset, listing)
    }

    fn readdirplus(&mut self, parent: u64, offset: u64) -> Result<Vec<DirectoryEntryPlus<String>>, i32> {
        let prefix = self.fs.readdirplus(parent)?;
        let listing = self.daemon.list(&prefix);
        let (listed, own) = self.fs.readdirplus_listed(parent, listing)?;
        let own = match own {
            Fetch::Done(r) => r?,
            Fetch::List { prefix } => {
                let listing = self.daemon.list(&prefix);
                self.fs.fetched_attr(parent, listing)?
            }
        };
        Ok(directory_rows_plus(parent, own, listed, offset, OWNER))
    }

    fn open(&mut self, inode: u64, flags: u32) -> Result<u64, i32> {
        let pending = self.fs.open(inode, flags)?;
        let reply = self.daemon.ask(&pending.request());
        let file = pending.replied(reply)?;
        let path = file.cache_path.clone();
        let truncating = file.open.truncating;
        let ok = self.disk.contains_key(&path);
        let fh = self.fs.opened(file, ok)?;
        if truncating {
            self.disk.insert(path.clone(), vec![]);
        }
        self.open.insert(fh, path);
        Ok(fh)
    }

    fn read(&mut self, fh: u64) -> Result<Vec<u8>, i32> {
        self.fs.check_handle(fh)?;
        Ok(self.disk[&self.open[&fh]].clone())
    }

    fn write(&mut self, fh: u64, bytes: &[u8]) -> Result<u32, i32> {
        self.fs.check_handle(fh)?;
        self.disk.insert(self.open[&fh].clone(), bytes.to_vec());
        self.fs.wrote(fh, Some(bytes.len()))
    }

    fn fsync(&mut self, fh: u64) -> Result<(), i32> {
        self.fs.check_handle(fh)?;
        match self.fs.synced(fh, true) {
            Fsync::Done(r) => r,
            Fsync::Upload(req) => {
                let reply = self.daemon.ask(&req);
                self.fs.uploaded(fh, reply)
            }
        }
    }

    fn release(&mut self, fh: u64) {
        self.open.remove(&fh);
        for req in self.fs.release(fh) {
            let _ = self.daemon.ask(&req);
        }
    }

    fn create(&mut self, parent: u64, name: &str) -> Result<(u64, FileAttr), i32> {
        let pending = self.fs.create_internal(parent, Some(name))?;
        let reply = self.daemon.ask(&pending.request());
        let file = pending.replied(reply)?;
        let path = file.cache_path.clone();
        self.disk.insert(path.clone(), vec![]);
        let (fh, attr, ino) = self.fs.created(file, true, NOW, OWNER)?;
        assert_eq!(attr.ino, ino);
        self.open.insert(fh, path);
        Ok((fh, attr))
    }

    fn mkdir(&mut self, parent: u64, name: &str) -> Result<FileAttr, i32> {
        let (path, request) = self.fs.mkdir(parent, Some(name))?;
        let reply = self.daemon.ask(&request);
        self.fs.made_directory(&path, reply, NOW, OWNER)
    }

    fn unlink(&mut self, parent: u64, name: &str) -> Result<Option<Vec<u8>>, i32> {
        let (path, request) = self.fs.unlink(parent, Some(name))?;
        let reply = self.daemon.ask(&request);
        self.fs.removed(&path, reply)
    }

    fn rmdir(&mut self, parent: u64, name: &str) -> Result<Option<Vec<u8>>, i32> {
        let (path, request) = self.fs.rmdir(parent, Some(name))?;
        let reply = self.daemon.ask(&request);
        self.fs.removed(&path, reply)
    }

    fn rename(&mut self, old: &str, new: &str) -> Result<(), i32> {
        let (from, to, request) = self.fs.rename(ROOT_INODE, Some(old), ROOT_INODE, Some(new))?;
        let reply = self.daemon.ask(&request);
        self.fs.moved(&from, &to, reply)
    }

    fn setattr(&mut self, inode: u64, fh: Option<u64>, size: Option<u64>) -> Result<FileAttr, i32> {
        let mut step = self.fs.setattr(inode, fh, size);
        loop {
            step = match step {
                Setattr::Failed(e) => return Err(e),
                Setattr::Refresh => return self.getattr(inode),
                Setattr::ResizeHandle { fh, size } => {
                    let path = self.open[&fh].clone();
                    let ok = self.resize(&path, size);
                    self.fs.handle_resized(inode, fh, size, ok)
                }
                Setattr::ResizeCache { path, handle_id, cache_path, size } => {
                    let ok = self.resize(&cache_path, size);
                    UnidriveFs::cache_resized(path, handle_id, cache_path, size, ok)
                }
                Setattr::Ask { request, waiting } => {
                    let reply = self.daemon.ask(&request);
                    self.fs.setattr_replied(inode, waiting, reply)
                }
            };
        }
    }

    fn resize(&mut self, path: &str, size: u64) -> bool {
        match self.disk.get_mut(path) {
            Some(bytes) => {
                bytes.resize(size as usize, 0);
                true
            }
            None => false,
        }
    }

    fn getxattr(&mut self, inode: u64, name: &str, size: u32) -> Result<XAttr<Vec<u8>>, i32> {
        match self.fs.getxattr(inode, Some(name), size) {
            Fetch::Done(r) => r,
            Fetch::List { prefix } => {
                let listing = self.daemon.list(&prefix);
                self.fs.getxattr_listed(inode, size, listing)
            }
        }
    }
}

fn names(rows: &[DirectoryEntry<String>]) -> Vec<&str> {
    rows.iter().map(|r| r.name.as_str()).collect()
}

#[test]
fn error_numbers_and_flags_are_those_of_the_platform() {
    assert_eq!(errno::EPERM, libc::EPERM);
    assert_eq!(errno::ENOENT, libc::ENOENT);
    assert_eq!(errno::EIO, libc::EIO);
    assert_eq!(errno::EBADF, libc::EBADF);
    assert_eq!(errno::EBUSY, libc::EBUSY);
    assert_eq!(errno::EEXIST, libc::EEXIST);
    assert_eq!(errno::ENOTDIR, libc::ENOTDIR);
    assert_eq!(errno::EISDIR, libc::EISDIR);
    assert_eq!(errno::EINVAL, libc::EINVAL);
    assert_eq!(errno::ERANGE, libc::ERANGE);
    assert_eq!(errno::ENOTEMPTY, libc::ENOTEMPTY);
    assert_eq!(errno::ENODATA, libc::ENODATA);
    assert_eq!(O_ACCMODE as i32, libc::O_ACCMODE);
    assert_eq!(O_WRONLY as i32, libc::O_WRONLY);
    assert_eq!(O_RDWR as i32, libc::O_RDWR);
    assert_eq!(O_TRUNC as i32, libc::O_TRUNC);
    assert_eq!(S_IFMT, libc::S_IFMT);
    assert_eq!(S_IFREG, libc::S_IFREG);
}

#[test]
fn errors_of_the_daemon_become_error_numbers() {
    let server = |s: &str| IpcError::ServerError(s.to_string());
    for (why, expected) in [
        ("parent_not_found", libc::ENOENT),
        ("unknown_path", libc::ENOENT),
        ("path_is_folder", libc::EISDIR),
        ("path_is_file", libc::ENOTDIR),
        ("not_empty", libc::ENOTEMPTY),
        ("path_exists", libc::EEXIST),
        ("old_path_not_found", libc::ENOENT),
        ("new_parent_not_found", libc::ENOENT),
        ("new_path_exists", libc::EEXIST),
        ("not_found", libc::EIO),
        ("anything", libc::EIO),
    ] {
        assert_eq!(errno::namespace_err_to_errno(&server(why)), expected, "{why}");
        assert_eq!(errno::ipc_error_to_errno(&server(why)), libc::EIO, "{why}");
    }
    assert_eq!(errno::namespace_err_to_errno(&IpcError::Busy), libc::EBUSY);
    assert_eq!(errno::ipc_error_to_errno(&IpcError::Busy), libc::EBUSY);
    assert_eq!(errno::ipc_error_to_errno(&IpcError::Io(String::new())), libc::EIO);
    assert_eq!(errno::read_error_to_errno(&server("not_found")), libc::ENOENT);
    assert_eq!(errno::read_error_to_errno(&server("other")), libc::EIO);
    assert_eq!(errno::read_error_to_errno(&IpcError::Busy), libc::EBUSY);
}

#[test]
fn paths_split_at_their_last_slash() {
    for (path, base, parent) in [
        ("/file.txt", "file.txt", ""),
        ("/folder/sub", "sub", "/folder"),
        ("", "", ""),
        ("plain", "plain", ""),
        ("/a/", "", "/a"),
        ("a/b", "b", "a"),
        ("/\u{e4}/\u{1f600}", "\u{1f600}", "/\u{e4}"),
    ] {
        assert_eq!(basename(path), base, "{path}");
        assert_eq!(parent_prefix(path), parent, "{path}");
    }
}

#[test]
fn attributes_are_shown_as_the_kernel_wants_them() {
    let c = CachedAttr { size: 1025, mtime_ms: 1_234_567, is_folder: false, is_hydrated: true };
    let a = file_attr_from_cached(9, &c, OWNER);
    assert_eq!((a.ino, a.size, a.blocks), (9, 1025, 3));
    assert_eq!((a.secs, a.nsec), (1234, 567_000_000));
    assert_eq!((a.perm, a.nlink, a.blksize, a.rdev), (0o644, 1, 4096, 0));
    assert_eq!((a.uid, a.gid), (1000, 1001));
    assert_eq!(a.kind, FileType::RegularFile);
    let d = CachedAttr { size: 0, mtime_ms: -1, is_folder: true, is_hydrated: false };
    let a = file_attr_from_cached(1, &d, OWNER);
    assert_eq!((a.blocks, a.perm, a.nlink), (0, 0o755, 2));
    assert_eq!(a.kind, FileType::Directory);
    for ms in [-1i64, -999, -1000, -1001, -1_500_250, i64::MIN, i64::MAX, 0, 999] {
        let c = CachedAttr { size: u64::MAX, mtime_ms: ms, is_folder: false, is_hydrated: false };
        let a = file_attr_from_cached(1, &c, OWNER);
        assert_eq!(a.secs, ms / 1000, "{ms}");
        assert_eq!(a.nsec, ((ms % 1000) * 1_000_000) as u32, "{ms}");
        assert_eq!(a.blocks, u64::MAX.div_ceil(512));
    }
    assert_eq!(mtime_now(None), 0);
    assert_eq!(mtime_now(Some(5)), 5);
}

const LS: &str = r#"{"ok":true,"entries":[{"path":"/file.txt","size":100,"mtime_ms":1000000,"hydrated":false,"folder":false},{"path":"/folder","size":0,"mtime_ms":2000000,"hydrated":false,"folder":true},{"path":"/cached.bin","size":42,"mtime_ms":3000000,"hydrated":true,"folder":false}]}"#;

#[test]
fn ls_la_shows_file_folder_and_hydrated_file() {
    let mut m = Mount::new(&[("list", LS)]);
    let rows = m.readdir(ROOT_INODE, 0).unwrap();
    let mut shown: Vec<&str> = names(&rows).into_iter().filter(|n| !n.starts_with('.')).collect();
    assert_eq!(shown.len(), 3);
    shown.sort();
    assert_eq!(shown, vec!["cached.bin", "file.txt", "folder"]);
    let folder = m.lookup(ROOT_INODE, "folder").unwrap();
    assert_eq!(folder.kind, FileType::Directory, "folder should be a directory");
    let file = m.lookup(ROOT_INODE, "file.txt").unwrap();
    assert_eq!(file.kind, FileType::RegularFile, "file.txt should be a regular file");
    assert_eq!(file.size, 100, "file.txt size should be 100");
    // The one listing was enough.
    assert_eq!(m.daemon.count("list"), 1);
    assert_eq!(m.getattr(file.ino).unwrap(), file);
    assert_eq!(m.daemon.count("list"), 1);
}

#[test]
fn reading_a_directory_resumes_at_an_offset() {
    let mut m = Mount::new(&[("list", LS)]);
    let all = m.readdir(ROOT_INODE, 0).unwrap();
    assert_eq!(names(&all), [".", "..", "file.txt", "folder", "cached.bin"]);
    let offsets: Vec<i64> = all.iter().map(|r| r.offset).collect();
    assert_eq!(offsets, [1, 2, 3, 4, 5]);
    assert_eq!(all[0].inode, ROOT_INODE);
    for row in &all {
        let rest = m.readdir(ROOT_INODE, row.offset).unwrap();
        assert_eq!(names(&rest), &names(&all)[row.offset as usize..]);
        let plus = m.readdirplus(ROOT_INODE, row.offset as u64).unwrap();
        assert_eq!(plus.len(), rest.len());
    }
    assert_eq!(m.readdir(ROOT_INODE, -7).unwrap().len(), 5);
    assert!(m.readdir(ROOT_INODE, 99).unwrap().is_empty());
    assert!(m.readdirplus(ROOT_INODE, u64::MAX).unwrap().is_empty());
    assert!(matches!(m.readdir(77, 0), Err(e) if e == libc::ENOENT));
    assert!(matches!(m.readdirplus(77, 0), Err(e) if e == libc::ENOENT));
}

#[test]
fn readdirplus_carries_the_attributes() {
    let mut m = Mount::new(&[("list", LS)]);
    let rows = m.readdirplus(ROOT_INODE, 0).unwrap();
    assert_eq!(rows[0].attr.kind, FileType::Directory);
    assert_eq!(rows[1].entry.name, "..");
    assert_eq!(rows[2].attr.size, 100);
    assert_eq!(rows[2].entry.inode, rows[2].attr.ino);
    assert_eq!(rows[3].entry.kind, FileType::Directory);
    assert_eq!(rows[4].attr.secs, 3000);
    // A directory of which nothing is known is found in its parent.
    let mut m = Mount::new(&[("list", LS)]);
    let folder = m.lookup(ROOT_INODE, "folder").unwrap().ino;
    assert_eq!(m.readdirplus(folder, 0).unwrap()[0].attr.secs, 2000);
}

#[test]
fn a_directory_that_cannot_be_listed_is_an_error() {
    let mut m = Mount::new(&[("list", r#"{"ok":false,"error":"busy"}"#)]);
    assert_eq!(m.readdir(ROOT_INODE, 0).unwrap_err(), libc::EBUSY);
    assert_eq!(m.readdirplus(ROOT_INODE, 0).unwrap_err(), libc::EBUSY);
    assert_eq!(m.lookup(ROOT_INODE, "x").unwrap_err(), libc::EBUSY);
}

#[test]
fn readdir_skips_entry_with_name_over_name_max() {
    let long_name = "z".repeat(300);
    let list_reply = format!(
        r#"{{"ok":true,"entries":[{{"path":"/good.txt","size":10,"mtime_ms":1000,"hydrated":false,"folder":false}},{{"path":"/{long_name}","size":20,"mtime_ms":2000,"hydrated":false,"folder":false}}]}}"#
    );
    let mut m = Mount::new(&[("list", &list_reply)]);
    let rows = m.readdir(ROOT_INODE, 0).unwrap();
    let entries: Vec<&str> = names(&rows).into_iter().filter(|n| !n.starts_with('.')).collect();
    assert_eq!(entries, vec!["good.txt"], "got: {entries:?}");
}

#[test]
fn a_name_is_measured_in_bytes_and_hides_no_other() {
    let fits = "\u{e4}".repeat(127) + "x";
    let over = "\u{e4}".repeat(128);
    let entry = |n: &str| {
        format!(r#"{{"path":"/d/{n}","size":1,"mtime_ms":1,"hydrated":false,"folder":false}}"#)
    };
    let list = format!(
        r#"{{"ok":true,"entries":[{},{},{}]}}"#,
        entry(&over),
        entry(&fits),
        entry("last")
    );
    let mut m = Mount::new(&[("list", &list)]);
    let rows = m.readdir(ROOT_INODE, 0).unwrap();
    assert_eq!(names(&rows), [".", "..", fits.as_str(), "last"]);
    assert_eq!(rows[3].offset, 4);
    let plus = m.readdirplus(ROOT_INODE, 2).unwrap();
    assert_eq!(plus.len(), 2);
    assert_eq!(plus[1].entry.name, "last");
    assert_eq!(plus[1].entry.offset, 4);
}

#[test]
fn lookups_and_attributes_of_nothing_are_enoent() {
    let mut m = Mount::new(&[("list", LS)]);
    assert_eq!(m.lookup(ROOT_INODE, "none").unwrap_err(), libc::ENOENT);
    assert_eq!(m.lookup(99, "x").unwrap_err(), libc::ENOENT);
    assert_eq!(m.getattr(99).unwrap_err(), libc::ENOENT);
    match m.fs.lookup(99, None, OWNER) {
        Lookup::Done(Err(e)) => assert_eq!(e, libc::EINVAL),
        _ => panic!("a name that is no text must be refused"),
    }
    let root = m.getattr(ROOT_INODE).unwrap();
    assert_eq!((root.kind, root.size, root.secs), (FileType::Directory, 0, 0));
}

#[test]
fn cat_returns_cache_file_bytes_and_release_closes_handle() {
    let mut m = Mount::new(&[
        ("list", r#"{"ok":true,"entries":[{"path":"/foo.txt","size":5,"mtime_ms":1000000,"hydrated":false,"folder":false}]}"#),
        ("open_read", r#"{"ok":true,"cache_path":"/cache/foo.cache"}"#),
        ("close_handle", r#"{"ok":true}"#),
    ])
    .with_file("/cache/foo.cache", b"hello");
    let ino = m.lookup(ROOT_INODE, "foo.txt").unwrap().ino;
    let fh = m.open(ino, 0).unwrap();
    assert_eq!(m.read(fh).unwrap(), b"hello", "file contents mismatch");
    m.release(fh);
    let open_idx = m.daemon.position("open_read").unwrap();
    let close_idx = m.daemon.position("close_handle").unwrap();
    assert!(open_idx < close_idx, "open_read must precede close_handle");
    assert!(m.daemon.recorded[open_idx].contains(r#""path":"/foo.txt""#));
    assert!(m.daemon.recorded[open_idx].contains(r#""handle_id":"rh-1""#));
    assert_eq!(m.daemon.count("open_write"), 0);
    assert_eq!(m.read(fh).unwrap_err(), libc::EBADF);
}

#[test]
fn read_open_returns_eio_when_open_read_download_fails() {
    let mut m = Mount::new(&[
        ("list", r#"{"ok":true,"entries":[{"path":"/WTF.kdbx","size":722309,"mtime_ms":1000000,"hydrated":false,"folder":false}]}"#),
        ("open_read", r#"{"ok":false,"error":"download failed: 404 Not Found"}"#),
        ("close_handle", r#"{"ok":true}"#),
    ]);
    let ino = m.lookup(ROOT_INODE, "WTF.kdbx").unwrap().ino;
    assert_eq!(m.open(ino, 0).unwrap_err(), libc::EIO);
    assert_eq!(m.daemon.count("open_read"), 1);
}

#[test]
fn open_read_not_found_maps_to_enoent() {
    let mut m = Mount::new(&[
        ("list", r#"{"ok":true,"entries":[{"path":"/gone.kdbx","size":722309,"mtime_ms":1000000,"hydrated":false,"folder":false}]}"#),
        ("open_read", r#"{"ok":false,"error":"not_found"}"#),
        ("close_handle", r#"{"ok":true}"#),
    ]);
    let ino = m.lookup(ROOT_INODE, "gone.kdbx").unwrap().ino;
    assert_eq!(m.open(ino, 0).unwrap_err(), libc::ENOENT);
    assert_eq!(m.daemon.count("open_read"), 1);
}

#[test]
fn cutting_a_file_whose_content_is_gone_is_an_io_error() {
    let mut m = Mount::new(&[("list", LS), ("open_read", r#"{"ok":false,"error":"not_found"}"#)]);
    let ino = m.lookup(ROOT_INODE, "file.txt").unwrap().ino;
    assert_eq!(m.setattr(ino, None, Some(3)).unwrap_err(), libc::EIO);
    assert_eq!(m.getattr(ino).unwrap().size, 100);
    assert_eq!(m.daemon.count("open_read"), 1);
    assert_eq!(m.daemon.count("close_handle"), 0);
    let mut m = Mount::new(&[("list", LS), ("open_read", r#"{"ok":false,"error":"busy"}"#)]);
    let ino = m.lookup(ROOT_INODE, "file.txt").unwrap().ino;
    assert_eq!(m.setattr(ino, None, Some(3)).unwrap_err(), libc::EBUSY);
}

#[test]
fn each_change_of_a_name_has_its_verb() {
    let m = Mount::new(&[]);
    let line = |r: Result<(String, Request<String>), i32>| request_line(&r.unwrap().1).unwrap();
    assert_eq!(
        line(m.fs.mkdir(ROOT_INODE, Some("x"))),
        r#"{"path":"/x","verb":"hydration.mkdir"}"#
    );
    assert_eq!(
        line(m.fs.unlink(ROOT_INODE, Some("x"))),
        r#"{"path":"/x","verb":"hydration.unlink"}"#
    );
    assert_eq!(
        line(m.fs.rmdir(ROOT_INODE, Some("x"))),
        r#"{"path":"/x","verb":"hydration.rmdir"}"#
    );
    let (from, to, request) = m.fs.rename(ROOT_INODE, Some("a"), ROOT_INODE, Some("b")).unwrap();
    assert_eq!((from.as_str(), to.as_str()), ("/a", "/b"));
    assert_eq!(
        request_line(&request).unwrap(),
        r#"{"new_path":"/b","old_path":"/a","verb":"hydration.rename"}"#
    );
}

#[test]
fn what_cannot_be_opened_is_refused() {
    let mut m = Mount::new(&[
        ("list", LS),
        ("open_read", r#"{"ok":true,"cache_path":"/nowhere"}"#),
        ("open_write_begin", r#"{"ok":false,"error":"path_is_folder"}"#),
    ]);
    assert_eq!(m.open(ROOT_INODE, 0).unwrap_err(), libc::EISDIR);
    assert_eq!(m.open(99, 0).unwrap_err(), libc::ENOENT);
    let ino = m.lookup(ROOT_INODE, "file.txt").unwrap().ino;
    // The cache file is not there.
    assert_eq!(m.open(ino, 0).unwrap_err(), libc::EIO);
    assert_eq!(m.open(ino, O_WRONLY | O_TRUNC).unwrap_err(), libc::EISDIR);
}

#[test]
fn open_flags_choose_the_verb() {
    let mut m = Mount::new(&[
        ("list", LS),
        ("open_read", r#"{"ok":true,"cache_path":"/c"}"#),
        ("open_write_begin", r#"{"ok":true,"cache_path":"/c"}"#),
    ])
    .with_file("/c", b"");
    let ino = m.lookup(ROOT_INODE, "file.txt").unwrap().ino;
    for (flags, verb, id) in [
        (0, "open_read", "rh-1"),
        (O_TRUNC, "open_read", "rh-2"),
        (O_WRONLY, "open_read", "wh-3"),
        (O_RDWR, "open_read", "wh-4"),
        (O_WRONLY | O_TRUNC, "open_write_begin", "wh-5"),
        (O_RDWR | O_TRUNC | 0o100000, "open_write_begin", "wh-6"),
        (3, "open_read", "rh-7"),
    ] {
        let before = m.daemon.recorded.len();
        let fh = m.open(ino, flags).unwrap();
        let sent = &m.daemon.recorded[before];
        assert!(sent.contains(&format!(r#""verb":"hydration.{verb}""#)), "{flags}: {sent}");
        assert!(sent.contains(&format!(r#""handle_id":"{id}""#)), "{flags}: {sent}");
        let before = m.daemon.recorded.len();
        m.release(fh);
        let uploads = m.daemon.recorded[before..].len() - 1;
        assert_eq!(uploads, if verb == "open_write_begin" { 1 } else { 0 }, "{flags}");
    }
}

const FOO: &str = r#"{"ok":true,"entries":[{"path":"/foo.txt","size":0,"mtime_ms":1000000,"hydrated":false,"folder":false}]}"#;
const FOO_CACHE: &str = r#"{"ok":true,"cache_path":"/cache/foo.cache"}"#;

#[test]
fn dirty_release_fires_open_write_then_close_handle() {
    let mut m = Mount::new(&[
        ("list", FOO),
        ("open_write_begin", FOO_CACHE),
        ("open_write", FOO_CACHE),
        ("close_handle", r#"{"ok":true}"#),
    ])
    .with_file("/cache/foo.cache", b"");
    let ino = m.lookup(ROOT_INODE, "foo.txt").unwrap().ino;
    let fh = m.open(ino, O_WRONLY | O_TRUNC).unwrap();
    assert_eq!(m.write(fh, b"hi\n").unwrap(), 3);
    m.fsync(fh).unwrap();
    m.release(fh);
    assert_eq!(m.disk["/cache/foo.cache"], b"hi\n", "cache file content mismatch");
    let open_write_idx = m.daemon.position("open_write").unwrap();
    let close_idx = m.daemon.position("close_handle").unwrap();
    assert!(open_write_idx < close_idx, "open_write must precede close_handle");
    let req = &m.daemon.recorded[open_write_idx];
    assert!(req.contains(r#""path":"/foo.txt""#), "open_write missing path: {req}");
    assert!(req.contains(r#""cache_path":"/cache/foo.cache""#), "open_write missing cache_path: {req}");
}

#[test]
fn non_truncating_write_open_uses_open_read() {
    let mut m = Mount::new(&[
        ("list", r#"{"ok":true,"entries":[{"path":"/bar.txt","size":9,"mtime_ms":1000000,"hydrated":true,"folder":false}]}"#),
        ("open_read", r#"{"ok":true,"cache_path":"/cache/bar.cache"}"#),
        ("open_write", r#"{"ok":true,"cache_path":"/cache/bar.cache"}"#),
        ("close_handle", r#"{"ok":true}"#),
    ])
    .with_file("/cache/bar.cache", b"original\n");
    let ino = m.lookup(ROOT_INODE, "bar.txt").unwrap().ino;
    let fh = m.open(ino, O_WRONLY).unwrap();
    m.write(fh, b"x").unwrap();
    m.release(fh);
    assert_eq!(m.daemon.count("open_read"), 1);
    assert_eq!(m.daemon.count("open_write_begin"), 0);
    assert_eq!(m.daemon.count("open_write"), 1);
    assert_eq!(m.daemon.count("close_handle"), 1);
}

#[test]
fn fsync_fires_open_write_and_awaits() {
    let mut m = Mount::new(&[
        ("list", FOO),
        ("open_write_begin", FOO_CACHE),
        ("open_write", FOO_CACHE),
        ("close_handle", r#"{"ok":true}"#),
    ])
    .with_file("/cache/foo.cache", b"");
    let ino = m.lookup(ROOT_INODE, "foo.txt").unwrap().ino;
    let fh = m.open(ino, O_WRONLY | O_TRUNC).unwrap();
    m.write(fh, b"hi\n").unwrap();
    m.fsync(fh).unwrap();
    assert_eq!(m.daemon.count("open_write"), 1, "open_write must be observed BEFORE fsync(2) returned");
    m.release(fh);
    assert_eq!(m.daemon.count("open_write"), 1, "RELEASE must not re-upload");
    assert_eq!(m.daemon.count("close_handle"), 1, "RELEASE must fire close_handle");
    assert_eq!(m.disk["/cache/foo.cache"], b"hi\n");
}

#[test]
fn fsync_returns_eio_when_upload_fails() {
    let mut m = Mount::new(&[
        ("list", FOO),
        ("open_write_begin", FOO_CACHE),
        ("open_write", r#"{"ok":false,"error":"upload_failed"}"#),
        ("close_handle", r#"{"ok":true}"#),
    ])
    .with_file("/cache/foo.cache", b"");
    let ino = m.lookup(ROOT_INODE, "foo.txt").unwrap().ino;
    let fh = m.open(ino, O_WRONLY | O_TRUNC).unwrap();
    m.write(fh, b"hi\n").unwrap();
    assert_eq!(m.fsync(fh).unwrap_err(), libc::EIO);
    // The file is still dirty, so that its release tries again.
    m.release(fh);
    assert_eq!(m.daemon.count("open_write"), 2);
}

#[test]
fn a_write_during_an_upload_is_not_lost() {
    let mut m = Mount::new(&[
        ("list", FOO),
        ("open_write_begin", FOO_CACHE),
        ("open_write", FOO_CACHE),
        ("close_handle", r#"{"ok":true}"#),
    ])
    .with_file("/cache/foo.cache", b"");
    let ino = m.lookup(ROOT_INODE, "foo.txt").unwrap().ino;
    let fh = m.open(ino, O_WRONLY | O_TRUNC).unwrap();
    let req = match m.fs.synced(fh, true) {
        Fsync::Upload(req) => req,
        other => panic!("{other:?}"),
    };
    let reply = m.daemon.ask(&req);
    m.write(fh, b"later").unwrap();
    m.fs.uploaded(fh, reply).unwrap();
    m.release(fh);
    assert_eq!(m.daemon.count("open_write"), 2);
}

#[test]
fn fsync_and_write_report_what_failed() {
    let mut m = Mount::new(&[
        ("list", FOO),
        ("open_write_begin", FOO_CACHE),
    ])
    .with_file("/cache/foo.cache", b"");
    let ino = m.lookup(ROOT_INODE, "foo.txt").unwrap().ino;
    let fh = m.open(ino, O_WRONLY | O_TRUNC).unwrap();
    assert!(matches!(m.fs.synced(fh, false), Fsync::Done(Err(e)) if e == libc::EIO));
    assert_eq!(m.fs.wrote(fh, None).unwrap_err(), libc::EIO);
    assert_eq!(m.fs.wrote(77, Some(1)).unwrap_err(), libc::EBADF);
    assert!(matches!(m.fs.synced(77, true), Fsync::Done(Err(e)) if e == libc::EBADF));
    assert_eq!(m.fs.check_handle(77).unwrap_err(), libc::EBADF);
    assert!(m.fs.release(77).is_empty());
    // An upload that fails after the file was released changes nothing.
    assert!(matches!(m.fs.synced(fh, true), Fsync::Upload(_)));
    m.release(fh);
    assert_eq!(m.fs.uploaded(fh, Err(IpcError::Busy)).unwrap_err(), libc::EBUSY);
    assert!(m.fs.release(fh).is_empty());
}

#[test]
fn create_round_trip_returns_cache_path_and_handle_id() {
    let mut m = Mount::new(&[
        ("list", r#"{"ok":true,"entries":[]}"#),
        ("create", r#"{"ok":true,"cache_path":"/cache/foo.txt","handle_id":"create-jvm-1"}"#),
        ("open_write", r#"{"ok":true,"cache_path":"/cache/foo.txt"}"#),
        ("close_handle", r#"{"ok":true}"#),
    ]);
    assert_eq!(m.lookup(ROOT_INODE, "foo.txt").unwrap_err(), libc::ENOENT);
    let (fh, attr) = m.create(ROOT_INODE, "foo.txt").unwrap();
    assert_eq!((attr.size, attr.secs, attr.nsec), (0, 1_700_000_000, 123_000_000));
    m.write(fh, b"hi\n").unwrap();
    m.fsync(fh).unwrap();
    m.release(fh);
    assert_eq!(m.disk["/cache/foo.txt"], b"hi\n", "cache content mismatch");
    let create_req = &m.daemon.recorded[m.daemon.position("create").unwrap()];
    assert!(create_req.contains(r#""path":"/foo.txt""#), "create path mismatch: {create_req}");
    assert!(create_req.contains(r#""handle_id":"create-"#), "create handle_id prefix mismatch: {create_req}");
    let open_write_req = &m.daemon.recorded[m.daemon.position("open_write").unwrap()];
    assert!(
        open_write_req.contains(r#""handle_id":"create-jvm-1""#),
        "open_write must reuse the returned handle_id; got: {open_write_req}"
    );
    // What was made is found without asking.
    let lists = m.daemon.count("list");
    assert_eq!(m.lookup(ROOT_INODE, "foo.txt").unwrap(), attr);
    assert_eq!(m.daemon.count("list"), lists);
}

#[test]
fn create_returns_eexist_when_jvm_signals_path_exists() {
    let mut m = Mount::new(&[
        ("list", r#"{"ok":true,"entries":[]}"#),
        ("create", r#"{"ok":false,"error":"path_exists"}"#),
        ("close_handle", r#"{"ok":true}"#),
    ]);
    assert_eq!(m.create(ROOT_INODE, "exists.txt").unwrap_err(), libc::EEXIST);
    assert_eq!(m.daemon.count("create"), 1);
}

#[test]
fn touch_creates_empty_file_and_release_uploads() {
    let mut m = Mount::new(&[
        ("list", r#"{"ok":true,"entries":[]}"#),
        ("create", r#"{"ok":true,"cache_path":"/cache/touched.txt","handle_id":"create-jvm-7"}"#),
        ("open_write", r#"{"ok":true,"cache_path":"/cache/touched.txt"}"#),
        ("close_handle", r#"{"ok":true}"#),
    ]);
    let (fh, _) = m.create(ROOT_INODE, "touched.txt").unwrap();
    m.release(fh);
    let open_write_idx = m.daemon.position("open_write").unwrap();
    let close_idx = m.daemon.position("close_handle").unwrap();
    assert!(open_write_idx < close_idx, "open_write must precede close_handle");
    let req = &m.daemon.recorded[open_write_idx];
    assert!(req.contains(r#""handle_id":"create-jvm-7""#), "{req}");
}

#[test]
fn a_file_whose_cache_cannot_be_made_is_not_created() {
    let mut m = Mount::new(&[
        ("create", r#"{"ok":true,"cache_path":"/c","handle_id":"h"}"#),
    ]);
    let pending = m.fs.create_internal(ROOT_INODE, Some("x")).unwrap();
    let reply = m.daemon.ask(&pending.request());
    let file = pending.replied(reply).unwrap();
    assert_eq!(m.fs.created(file, false, NOW, OWNER).unwrap_err(), libc::EIO);
    assert!(matches!(m.fs.lookup(ROOT_INODE, Some("x"), OWNER), Lookup::List { .. }));
    assert_eq!(m.fs.create_internal(ROOT_INODE, None).unwrap_err(), libc::EINVAL);
    assert_eq!(m.fs.create_internal(42, Some("x")).unwrap_err(), libc::ENOENT);
}

#[test]
fn mknod_makes_regular_files_only() {
    let mut m = Mount::new(&[
        ("create", r#"{"ok":true,"cache_path":"/c","handle_id":"h"}"#),
        ("open_write", r#"{"ok":true,"cache_path":"/c"}"#),
    ]);
    for mode in [libc::S_IFCHR, libc::S_IFBLK, libc::S_IFIFO, libc::S_IFSOCK, libc::S_IFDIR] {
        assert_eq!(m.fs.mknod(mode | 0o644).unwrap_err(), libc::EPERM);
    }
    m.fs.mknod(0o644).unwrap();
    m.fs.mknod(libc::S_IFREG | 0o600).unwrap();
    let (fh, _) = m.create(ROOT_INODE, "node").unwrap();
    let before = m.daemon.recorded.len();
    for req in m.fs.made_node(fh) {
        let _ = m.daemon.ask(&req);
    }
    let told = &m.daemon.recorded[before..];
    assert_eq!(told.len(), 2);
    assert!(told[0].contains("hydration.open_write"));
    assert!(told[1].contains("hydration.close_handle"));
    assert_eq!(m.fs.check_handle(fh).unwrap_err(), libc::EBADF);
    assert!(m.fs.made_node(fh).is_empty());
}

#[test]
fn mkdir_round_trip_returns_zero_on_jvm_ok() {
    let mut m = Mount::new(&[
        ("list", r#"{"ok":true,"entries":[]}"#),
        ("close_handle", r#"{"ok":true}"#),
        ("mkdir", r#"{"ok":true}"#),
    ]);
    let attr = m.mkdir(ROOT_INODE, "newfolder").unwrap();
    assert_eq!(attr.kind, FileType::Directory);
    let req = &m.daemon.recorded[m.daemon.position("mkdir").unwrap()];
    assert!(req.contains(r#""path":"/newfolder""#), "mkdir path mismatch: {req}");
    let sub = m.mkdir(attr.ino, "sub").unwrap();
    assert!(m.daemon.recorded[1].contains(r#""path":"/newfolder/sub""#));
    assert_eq!(m.lookup(attr.ino, "sub").unwrap(), sub);
    assert_eq!(m.daemon.count("list"), 0);
}

#[test]
fn rmdir_returns_enotempty_when_jvm_signals_not_empty() {
    let mut m = Mount::new(&[
        ("list", r#"{"ok":true,"entries":[{"path":"/full","size":0,"mtime_ms":1000000,"hydrated":false,"folder":true}]}"#),
        ("close_handle", r#"{"ok":true}"#),
        ("rmdir", r#"{"ok":false,"error":"not_empty"}"#),
    ]);
    let ino = m.lookup(ROOT_INODE, "full").unwrap().ino;
    assert_eq!(m.rmdir(ROOT_INODE, "full").unwrap_err(), libc::ENOTEMPTY);
    assert_eq!(m.daemon.count("rmdir"), 1);
    // Nothing was forgotten.
    assert_eq!(m.getattr(ino).unwrap().ino, ino);
}

#[test]
fn mkdir_returns_enoent_when_jvm_signals_parent_not_found() {
    let mut m = Mount::new(&[
        ("list", r#"{"ok":true,"entries":[]}"#),
        ("close_handle", r#"{"ok":true}"#),
        ("mkdir", r#"{"ok":false,"error":"parent_not_found"}"#),
    ]);
    assert_eq!(m.mkdir(ROOT_INODE, "orphan").unwrap_err(), libc::ENOENT);
    assert_eq!(m.daemon.count("mkdir"), 1);
    assert_eq!(m.mkdir(55, "x").unwrap_err(), libc::ENOENT);
    assert_eq!(m.fs.mkdir(55, None).unwrap_err(), libc::EINVAL);
    assert_eq!(m.fs.unlink(ROOT_INODE, None).unwrap_err(), libc::EINVAL);
    assert_eq!(m.fs.rmdir(ROOT_INODE, None).unwrap_err(), libc::EINVAL);
}

#[test]
fn unlink_removes_hydrated_cache_file() {
    let mut m = Mount::new(&[
        ("list", r#"{"ok":true,"entries":[{"path":"/foo.txt","size":14,"mtime_ms":1000000,"hydrated":true,"folder":false}]}"#),
        ("close_handle", r#"{"ok":true}"#),
        ("unlink", r#"{"ok":true}"#),
    ]);
    m.fs = m.fs.with_cache_root(b"/cache/root".to_vec());
    let ino = m.lookup(ROOT_INODE, "foo.txt").unwrap().ino;
    let evicted = m.unlink(ROOT_INODE, "foo.txt").unwrap();
    assert_eq!(evicted, Some(b"/cache/root/foo.txt".to_vec()));
    assert_eq!(m.getattr(ino).unwrap_err(), libc::ENOENT);
    // A new file of that name gets a new inode.
    assert_ne!(m.lookup(ROOT_INODE, "foo.txt").unwrap().ino, ino);
}

#[test]
fn unlink_tolerates_missing_cache_file() {
    let mut m = Mount::new(&[
        ("list", r#"{"ok":true,"entries":[{"path":"/foo.txt","size":0,"mtime_ms":1000000,"hydrated":false,"folder":false}]}"#),
        ("close_handle", r#"{"ok":true}"#),
        ("unlink", r#"{"ok":true}"#),
    ]);
    // Without a cache root there is nothing to clear away, and what is not
    // known is removed all the same.
    assert_eq!(m.unlink(ROOT_INODE, "foo.txt").unwrap(), None);
    m.fs = m.fs.with_cache_root(b"/".to_vec());
    assert_eq!(m.unlink(ROOT_INODE, "foo.txt").unwrap(), Some(b"/foo.txt".to_vec()));
}

#[test]
fn rmdir_removes_hydrated_cache_directory() {
    let mut m = Mount::new(&[
        ("list", r#"{"ok":true,"entries":[{"path":"/folder","size":0,"mtime_ms":1000000,"hydrated":false,"folder":true}]}"#),
        ("close_handle", r#"{"ok":true}"#),
        ("rmdir", r#"{"ok":true}"#),
    ]);
    m.fs = m.fs.with_cache_root(b"/cache/".to_vec());
    m.lookup(ROOT_INODE, "folder").unwrap();
    assert_eq!(m.rmdir(ROOT_INODE, "folder").unwrap(), Some(b"/cache/folder".to_vec()));
}

#[test]
fn rename_round_trip_returns_zero_on_jvm_ok() {
    let mut m = Mount::new(&[
        ("list", r#"{"ok":true,"entries":[{"path":"/a.txt","size":3,"mtime_ms":1000000,"hydrated":false,"folder":false}]}"#),
        ("close_handle", r#"{"ok":true}"#),
        ("rename", r#"{"ok":true}"#),
    ]);
    m.lookup(ROOT_INODE, "a.txt").unwrap();
    m.rename("a.txt", "b.txt").unwrap();
    let req = &m.daemon.recorded[m.daemon.position("rename").unwrap()];
    assert!(req.contains(r#""old_path":"/a.txt""#), "rename old_path mismatch: {req}");
    assert!(req.contains(r#""new_path":"/b.txt""#), "rename new_path mismatch: {req}");
}

#[test]
fn rename_returns_eexist_when_jvm_signals_new_path_exists() {
    let mut m = Mount::new(&[
        ("list", r#"{"ok":true,"entries":[{"path":"/a.txt","size":3,"mtime_ms":1000000,"hydrated":false,"folder":false},{"path":"/b.txt","size":3,"mtime_ms":1000000,"hydrated":false,"folder":false}]}"#),
        ("close_handle", r#"{"ok":true}"#),
        ("rename", r#"{"ok":false,"error":"new_path_exists"}"#),
    ]);
    let a = m.lookup(ROOT_INODE, "a.txt").unwrap();
    let b = m.lookup(ROOT_INODE, "b.txt").unwrap();
    assert_eq!(m.rename("a.txt", "b.txt").unwrap_err(), libc::EEXIST);
    assert_eq!(m.daemon.count("rename"), 1);
    assert_eq!(m.lookup(ROOT_INODE, "a.txt").unwrap(), a);
    assert_eq!(m.lookup(ROOT_INODE, "b.txt").unwrap(), b);
}

#[test]
fn rename_returns_enoent_when_jvm_signals_old_path_not_found() {
    let mut m = Mount::new(&[
        ("list", r#"{"ok":true,"entries":[{"path":"/ghost.txt","size":3,"mtime_ms":1000000,"hydrated":false,"folder":false}]}"#),
        ("close_handle", r#"{"ok":true}"#),
        ("rename", r#"{"ok":false,"error":"old_path_not_found"}"#),
    ]);
    m.lookup(ROOT_INODE, "ghost.txt").unwrap();
    assert_eq!(m.rename("ghost.txt", "b.txt").unwrap_err(), libc::ENOENT);
    assert_eq!(m.fs.rename(9, None, ROOT_INODE, Some("x")).unwrap_err(), libc::EINVAL);
    assert_eq!(m.fs.rename(9, Some("x"), ROOT_INODE, None).unwrap_err(), libc::EINVAL);
    assert_eq!(m.fs.rename(9, Some("x"), ROOT_INODE, Some("y")).unwrap_err(), libc::ENOENT);
    assert_eq!(m.fs.rename(ROOT_INODE, Some("x"), 9, Some("y")).unwrap_err(), libc::ENOENT);
}

#[test]
fn mv_preserves_inode_via_pathmap() {
    let mut m = Mount::new(&[
        ("list", r#"{"ok":true,"entries":[{"path":"/src","size":42,"mtime_ms":1000000,"hydrated":false,"folder":false}]}"#),
        ("close_handle", r#"{"ok":true}"#),
        ("rename", r#"{"ok":true}"#),
    ]);
    let src_inode = m.lookup(ROOT_INODE, "src").unwrap().ino;
    m.rename("src", "dst").unwrap();
    let dst_inode = m.lookup(ROOT_INODE, "dst").unwrap().ino;
    assert_eq!(src_inode, dst_inode, "rename must preserve the inode");
}

#[test]
fn setattr_truncate_to_zero_uses_open_write_begin_not_open_read() {
    let mut m = Mount::new(&[
        ("list", r#"{"ok":true,"entries":[{"path":"/foo.txt","size":100,"mtime_ms":1000000,"hydrated":false,"folder":false}]}"#),
        ("open_write_begin", FOO_CACHE),
        ("open_write", FOO_CACHE),
    ])
    .with_file("/cache/foo.cache", b"existing data");
    let ino = m.lookup(ROOT_INODE, "foo.txt").unwrap().ino;
    let attr = m.setattr(ino, None, Some(0)).unwrap();
    assert_eq!(attr.size, 0);
    assert_eq!(m.daemon.count("open_write_begin"), 1);
    assert_eq!(m.daemon.count("open_read"), 0, "open_read must NOT fire for truncate-to-zero");
    let verbs = &m.daemon.recorded[1..];
    assert_eq!(
        verbs,
        [
            r#"{"path":"/foo.txt","verb":"hydration.open_write_begin"}"#,
            r#"{"cache_path":"/cache/foo.cache","handle_id":"trunc0-1","path":"/foo.txt","verb":"hydration.open_write"}"#,
            r#"{"handle_id":"trunc0-1","verb":"hydration.close_handle"}"#,
        ]
    );
}

#[test]
fn setattr_truncate_to_n_downloads_and_sets_len() {
    let mut m = Mount::new(&[
        ("list", r#"{"ok":true,"entries":[{"path":"/bar.txt","size":20,"mtime_ms":1000000,"hydrated":false,"folder":false}]}"#),
        ("open_read", r#"{"ok":true,"cache_path":"/cache/bar.cache"}"#),
        ("open_write", r#"{"ok":true,"cache_path":"/cache/bar.cache"}"#),
        ("close_handle", r#"{"ok":true}"#),
    ])
    .with_file("/cache/bar.cache", b"12345678901234567890");
    let ino = m.lookup(ROOT_INODE, "bar.txt").unwrap().ino;
    let attr = m.setattr(ino, None, Some(7)).unwrap();
    assert_eq!(attr.size, 7);
    assert_eq!(m.daemon.count("open_read"), 1);
    assert_eq!(m.daemon.count("open_write"), 1);
    assert_eq!(m.disk["/cache/bar.cache"].len(), 7, "cache file must be 7 bytes after truncate");
}

#[test]
fn setattr_truncate_set_len_failure_returns_eio_no_commit() {
    let mut m = Mount::new(&[
        ("list", r#"{"ok":true,"entries":[{"path":"/baz.txt","size":100,"mtime_ms":1000000,"hydrated":false,"folder":false}]}"#),
        ("open_read", r#"{"ok":true,"cache_path":"/cache/notafile"}"#),
        ("close_handle", r#"{"ok":true}"#),
    ]);
    let ino = m.lookup(ROOT_INODE, "baz.txt").unwrap().ino;
    assert_eq!(m.setattr(ino, None, Some(50)).unwrap_err(), libc::EIO);
    assert_eq!(m.daemon.count("open_write"), 0, "open_write must NOT fire when set_len fails");
    assert_eq!(m.daemon.count("close_handle"), 1);
    assert_eq!(m.getattr(ino).unwrap().size, 100);
}

#[test]
fn setattr_truncate_open_write_failure_releases_open_read_handle() {
    let mut m = Mount::new(&[
        ("list", r#"{"ok":true,"entries":[{"path":"/leak.txt","size":23,"mtime_ms":1000000,"hydrated":false,"folder":false}]}"#),
        ("open_read", r#"{"ok":true,"cache_path":"/cache/leak.cache"}"#),
        ("open_write", r#"{"ok":false,"error":"simulated_commit_failure"}"#),
        ("close_handle", r#"{"ok":true}"#),
    ])
    .with_file("/cache/leak.cache", b"some existing data here");
    let ino = m.lookup(ROOT_INODE, "leak.txt").unwrap().ino;
    assert_eq!(m.setattr(ino, None, Some(10)).unwrap_err(), libc::EIO);
    let open = m.daemon.position("open_read").unwrap();
    let write = m.daemon.position("open_write").unwrap();
    let close = m.daemon.position("close_handle").unwrap();
    assert!(open < write && write < close);
    assert!(m.daemon.recorded[close].contains(r#""handle_id":"truncN-1""#));
    assert_eq!(m.getattr(ino).unwrap().size, 23);
}

#[test]
fn setattr_chmod_is_noop_no_ipc_verbs_fired() {
    let mut m = Mount::new(&[
        ("list", r#"{"ok":true,"entries":[{"path":"/chmod.txt","size":42,"mtime_ms":1000000,"hydrated":false,"folder":false}]}"#),
    ]);
    let attr = m.lookup(ROOT_INODE, "chmod.txt").unwrap();
    let before = m.daemon.recorded.len();
    assert_eq!(m.setattr(attr.ino, None, None).unwrap(), attr);
    assert_eq!(m.daemon.recorded.len(), before);
    assert_eq!(m.setattr(99, None, None).unwrap_err(), libc::ENOENT);
}

#[test]
fn an_open_file_is_resized_in_place() {
    let mut m = Mount::new(&[
        ("list", LS),
        ("open_read", r#"{"ok":true,"cache_path":"/c"}"#),
        ("open_write", r#"{"ok":true,"cache_path":"/c"}"#),
    ])
    .with_file("/c", b"0123456789");
    let ino = m.lookup(ROOT_INODE, "file.txt").unwrap().ino;
    let fh = m.open(ino, O_RDWR).unwrap();
    let before = m.daemon.recorded.len();
    assert_eq!(m.setattr(ino, Some(fh), Some(4)).unwrap().size, 4);
    assert_eq!(m.setattr(ino, Some(fh), Some(0)).unwrap().size, 0);
    assert_eq!(m.daemon.recorded.len(), before);
    assert_eq!(m.setattr(ino, Some(77), Some(4)).unwrap_err(), libc::EBADF);
    m.release(fh);
    assert_eq!(m.daemon.count("open_write"), 1);
    // One that could not be resized is not dirty.
    let fh = m.open(ino, O_RDWR).unwrap();
    m.disk.remove("/c");
    assert_eq!(m.setattr(ino, Some(fh), Some(4)).unwrap_err(), libc::EIO);
    m.release(fh);
    assert_eq!(m.daemon.count("open_write"), 1);
}

#[test]
fn statfs_returns_sane_static_values() {
    let st = statfs();
    assert_eq!(st.bsize, 4096, "f_bsize should be 4096");
    assert_eq!(st.frsize, 4096, "f_frsize should be 4096");
    assert_eq!(st.namelen, 255, "f_namemax should be 255");
    assert!(st.blocks > 0, "f_blocks should be > 0, got {}", st.blocks);
    assert_eq!(st.bfree, st.blocks, "f_bfree should equal f_blocks");
    assert_eq!(st.bavail, st.blocks, "f_bavail should equal f_blocks");
    assert!(st.files > 0, "f_files should be > 0, got {}", st.files);
    assert!(st.ffree > 0, "f_ffree should be > 0, got {}", st.ffree);
    assert_eq!(st.blocks, 1 << 32);
}

const PROBE: &str = r#"{"ok":true,"entries":[{"path":"/probe.txt","size":0,"mtime_ms":1000,"hydrated":false,"folder":false}]}"#;

#[test]
fn getxattr_unknown_returns_enodata() {
    let mut m = Mount::new(&[("list", PROBE)]);
    let ino = m.lookup(ROOT_INODE, "probe.txt").unwrap().ino;
    assert_eq!(m.getxattr(ino, "user.nonexistent", 256).unwrap_err(), libc::ENODATA);
}

#[test]
fn hydrated_xattr_returns_flag() {
    let mut m = Mount::new(&[("list", PROBE)]);
    let ino = m.lookup(ROOT_INODE, "probe.txt").unwrap().ino;
    match m.getxattr(ino, "user.unidrive.hydrated", 8).unwrap() {
        XAttr::Data(v) => assert_eq!(v, b"0", "the file is not hydrated"),
        other => panic!("{other:?}"),
    }
    match m.getxattr(ino, "user.unidrive.hydrated", 0).unwrap() {
        XAttr::Size(n) => assert_eq!(n, 1),
        other => panic!("{other:?}"),
    }
    let mut m = Mount::new(&[("list", LS)]);
    let ino = m.lookup(ROOT_INODE, "cached.bin").unwrap().ino;
    match m.getxattr(ino, "user.unidrive.hydrated", 1).unwrap() {
        XAttr::Data(v) => assert_eq!(v, b"1"),
        other => panic!("{other:?}"),
    }
    assert_eq!(m.getxattr(99, "user.unidrive.hydrated", 1).unwrap_err(), libc::ENOENT);
}

#[test]
fn listxattr_includes_hydrated() {
    match listxattr(0).unwrap() {
        XAttr::Size(n) => assert_eq!(n, 23),
        other => panic!("{other:?}"),
    }
    match listxattr(256).unwrap() {
        XAttr::Data(v) => assert_eq!(v, b"user.unidrive.hydrated\0"),
        other => panic!("{other:?}"),
    }
    assert_eq!(listxattr(22).unwrap_err(), libc::ERANGE);
    assert!(matches!(listxattr(23), Ok(XAttr::Data(_))));
}

#[test]
fn setxattr_succeeds_silently() {
    assert_eq!(setxattr(), Ok(()));
    assert_eq!(removexattr(), Err(libc::ENODATA));
}

#[test]
fn a_forgotten_attribute_is_fetched_from_the_parent() {
    let mut m = Mount::new(&[("list", LS), ("rename", r#"{"ok":true}"#)]);
    // A path that was only ever renamed to has an inode and no attributes.
    let file = m.lookup(ROOT_INODE, "file.txt").unwrap();
    m.rename("file.txt", "other.txt").unwrap();
    assert_eq!(m.getattr(file.ino).unwrap(), file);
    assert!(m.fs.fits(1_000_000));
}

#[test]
fn an_attribute_that_is_not_known_is_what_the_parent_lists_last() {
    let twice = r#"{"ok":true,"entries":[{"path":"/d/f","size":1,"mtime_ms":0,"hydrated":false,"folder":false},{"path":"/d/g","size":2,"mtime_ms":0,"hydrated":false,"folder":false},{"path":"/d/f","size":3,"mtime_ms":0,"hydrated":true,"folder":false}]}"#;
    let mut m = Mount::new(&[("list", twice), ("rename", r#"{"ok":true}"#)]);
    let listing = m.daemon.list("/d");
    m.fs.lookup_listed("/d/f", listing, OWNER).unwrap();
    // The last entry counts for what is remembered.
    assert_eq!(m.getattr(2).unwrap().size, 3);
    assert_eq!(m.daemon.count("list"), 1);
    assert_eq!(m.getattr(3).unwrap().size, 2);
    let listing = m.daemon.list("/d");
    let a = m.fs.fetched_attr(2, listing).unwrap();
    assert_eq!((a.size, a.is_hydrated), (3, true));
    let nothing: Result<Vec<ListEntry>, IpcError> = Ok(vec![]);
    assert_eq!(m.fs.fetched_attr(99, nothing).unwrap_err(), libc::ENOENT);
    assert!(matches!(m.fs.get_or_fetch_attr(ROOT_INODE), Fetch::Done(Ok(a)) if a.is_folder && a.size == 0));
}

#[test]
fn an_unused_file_is_committed_only_if_it_was_emptied() {
    let mut m = Mount::new(&[
        ("list", LS),
        ("open_read", r#"{"ok":true,"cache_path":"/c"}"#),
        ("open_write_begin", r#"{"ok":true,"cache_path":"/c"}"#),
        ("mkdir", r#"{"ok":true}"#),
        ("unlink", r#"{"ok":true}"#),
    ])
    .with_file("/c", b"x");
    let ino = m.lookup(ROOT_INODE, "file.txt").unwrap().ino;
    let emptied = m.open(ino, O_WRONLY | O_TRUNC).unwrap();
    let kept = m.open(ino, O_WRONLY).unwrap();
    // Other things happen meanwhile.
    let other = m.open(ino, O_RDWR).unwrap();
    m.write(other, b"y").unwrap();
    m.mkdir(ROOT_INODE, "d").unwrap();
    m.unlink(ROOT_INODE, "file.txt").unwrap();
    m.release(other);
    assert_eq!((emptied, kept, other), (1, 2, 3));
    let before = m.daemon.count("open_write");
    m.release(kept);
    assert_eq!(m.daemon.count("open_write"), before);
    m.release(emptied);
    assert_eq!(m.daemon.count("open_write"), before + 1);
    assert_eq!(m.getattr(ROOT_INODE).unwrap().kind, FileType::Directory);
}

#[test]
fn open_files_do_not_displace_each_other() {
    let mut m = Mount::new(&[
        ("list", LS),
        ("open_read", r#"{"ok":true,"cache_path":"/c"}"#),
    ])
    .with_file("/c", b"x");
    let ino = m.lookup(ROOT_INODE, "file.txt").unwrap().ino;
    let a = m.open(ino, O_RDWR).unwrap();
    let b = m.open(ino, O_RDWR).unwrap();
    assert_eq!((a, b), (1, 2));
    m.write(b, b"y").unwrap();
    m.release(a);
    assert_eq!(m.daemon.count("open_write"), 0);
    assert_eq!(m.fs.check_handle(b), Ok(()));
    m.release(b);
    assert_eq!(m.daemon.count("open_write"), 1);
    let closes: Vec<&String> =
        m.daemon.recorded.iter().filter(|r| r.contains("hydration.close_handle")).collect();
    assert!(closes[0].contains(r#""handle_id":"wh-1""#));
    assert!(closes[1].contains(r#""handle_id":"wh-2""#));
}
