use remotefs::attrs::{block_count, project};
use remotefs::data::{read_range, splice};
use remotefs::path::child_path;
use remotefs::remote::byte_range;
use remotefs::{
    Attrs, DirItem, FileEntry, FileInfo, FileKind, FsError, Lookup, Owner, RemoteError, RemoteFS,
    Timestamp, ROOT_INO,
};

const OWNER: Owner = Owner { uid: 501, gid: 20 };

fn at(secs: u64) -> Timestamp {
    Timestamp { secs, nanos: 0 }
}

/// An in-memory stand-in for the remote store: paths with contents, and
/// directories.
struct Store {
    up: bool,
    objects: Vec<(String, Option<Vec<u8>>)>,
}

impl Store {
    fn new() -> Store {
        Store { up: true, objects: Vec::new() }
    }

    fn add_dir(&mut self, path: &str) {
        self.objects.push((path.to_string(), None));
    }

    fn add_file(&mut self, path: &str, data: &[u8]) {
        self.objects.push((path.to_string(), Some(data.to_vec())));
    }

    fn parent_of(path: &str) -> &str {
        match path.rfind('/') {
            Some(0) => "/",
            Some(i) => &path[..i],
            None => "/",
        }
    }

    fn list(&self, dir: &str) -> Result<Vec<FileEntry>, RemoteError> {
        if !self.up {
            return Err(RemoteError);
        }
        Ok(self
            .objects
            .iter()
            .filter(|(p, _)| Store::parent_of(p) == dir && p != "/")
            .map(|(p, d)| FileEntry {
                name: p.rsplit('/').next().unwrap().to_string(),
                is_dir: d.is_none(),
                size: d.as_ref().map(|v| v.len() as u64).unwrap_or(0),
                mtime: at(100),
                ctime: at(50),
                mode: if d.is_none() { 0o40755 } else { 0o100644 },
            })
            .collect())
    }

    fn read(&self, path: &str) -> Result<Vec<u8>, RemoteError> {
        if !self.up {
            return Err(RemoteError);
        }
        match self.objects.iter().find(|(p, _)| p == path) {
            Some((_, Some(d))) => Ok(d.clone()),
            _ => Err(RemoteError),
        }
    }

    fn write(&mut self, path: &str, data: &[u8]) -> Result<(), RemoteError> {
        if !self.up {
            return Err(RemoteError);
        }
        self.objects.retain(|(p, _)| p != path);
        self.add_file(path, data);
        Ok(())
    }

    fn rename(&mut self, from: &str, to: &str) -> Result<(), RemoteError> {
        if !self.up || !self.objects.iter().any(|(p, _)| p == from) {
            return Err(RemoteError);
        }
        self.objects.retain(|(p, _)| p != to);
        for o in self.objects.iter_mut() {
            if o.0 == from {
                o.0 = to.to_string();
            }
        }
        Ok(())
    }

    fn delete(&mut self, path: &str) -> Result<(), RemoteError> {
        if !self.up || !self.objects.iter().any(|(p, _)| p == path) {
            return Err(RemoteError);
        }
        self.objects.retain(|(p, _)| p != path);
        Ok(())
    }
}

fn lookup(fs: &mut RemoteFS, store: &Store, parent: u64, name: &str) -> Result<(u64, Attrs), FsError> {
    match fs.lookup(parent, name)? {
        Lookup::Known { ino, attr } => Ok((ino, attr)),
        Lookup::Listing { parent_path, child_path } => {
            let listing = store.list(&parent_path);
            fs.lookup_listed(&child_path, name, listing)
        }
    }
}

fn create(fs: &mut RemoteFS, store: &mut Store, parent: u64, name: &str) -> Result<(u64, Attrs, u64), FsError> {
    let path = fs.path_from_parent_and_name(parent, name)?;
    let sent = store.write(&path, &[]);
    fs.finish_create(&path, sent, at(200))
}

fn write(fs: &mut RemoteFS, store: &mut Store, ino: u64, offset: i64, data: &[u8]) -> Result<u32, FsError> {
    let path = fs.get_path(ino)?;
    let buf = RemoteFS::write_buffer(store.read(&path), offset, data)?;
    let sent = store.write(&path, &buf);
    fs.finish_write(ino, buf.len(), data.len(), sent, at(300))
}

fn read(fs: &RemoteFS, store: &Store, ino: u64, offset: i64, size: u32) -> Result<Vec<u8>, FsError> {
    let path = fs.get_path(ino)?;
    fs.read(store.read(&path), offset, size)
}

fn readdir(fs: &mut RemoteFS, store: &Store, ino: u64, offset: i64) -> Result<Vec<DirItem>, FsError> {
    let path = fs.get_path(ino)?;
    let listing = store.list(&path);
    fs.readdir(ino, &path, offset, listing)
}

fn rename(fs: &mut RemoteFS, store: &mut Store, parent: u64, name: &str, newparent: u64, newname: &str) -> Result<(), FsError> {
    let from = fs.path_from_parent_and_name(parent, name)?;
    let to = fs.path_from_parent_and_name(newparent, newname)?;
    let sent = store.rename(&from, &to);
    fs.finish_rename(&from, &to, sent)
}

fn unlink(fs: &mut RemoteFS, store: &mut Store, parent: u64, name: &str) -> Result<(), FsError> {
    let path = fs.path_from_parent_and_name(parent, name)?;
    let sent = store.delete(&path);
    fs.finish_remove(&path, sent)
}

fn mkdir(fs: &mut RemoteFS, store: &mut Store, parent: u64, name: &str) -> Result<(u64, Attrs), FsError> {
    let path = fs.path_from_parent_and_name(parent, name)?;
    store.add_dir(&path);
    fs.finish_mkdir(&path, Ok(()), at(400))
}

fn fresh_file() -> (RemoteFS, Store, u64) {
    let mut fs = RemoteFS::new(OWNER, at(1));
    let mut store = Store::new();
    let (ino, attr, _fh) = create(&mut fs, &mut store, ROOT_INO, "a.txt").unwrap();
    assert_eq!(attr.size, 0);
    assert_eq!(attr.perm, 0o644);
    assert_eq!(attr.kind, FileKind::RegularFile);
    (fs, store, ino)
}

#[test]
fn fresh_file_round_trip() {
    let (mut fs, mut store, ino) = fresh_file();
    assert_eq!(write(&mut fs, &mut store, ino, 0, b"hello"), Ok(5));
    assert_eq!(read(&fs, &store, ino, 0, 5).unwrap(), b"hello".to_vec());
    assert_eq!(fs.getattr(ino).unwrap().size, 5);
}

#[test]
fn sparse_write_extension() {
    let (mut fs, mut store, ino) = fresh_file();
    write(&mut fs, &mut store, ino, 0, b"hello").unwrap();
    assert_eq!(write(&mut fs, &mut store, ino, 10, b"!"), Ok(1));
    assert_eq!(read(&fs, &store, ino, 0, 11).unwrap(), b"hello\0\0\0\0\0!".to_vec());
    let attr = fs.getattr(ino).unwrap();
    assert_eq!(attr.size, 11);
    assert_eq!(attr.blocks, 1);
    assert_eq!(attr.mtime, at(300));
}

fn listing_fixture() -> (RemoteFS, Store, u64) {
    let mut fs = RemoteFS::new(OWNER, at(1));
    let mut store = Store::new();
    store.add_dir("/dir");
    store.add_file("/dir/x", b"xx");
    store.add_file("/dir/y", b"yyy");
    let (dir, attr) = lookup(&mut fs, &store, ROOT_INO, "dir").unwrap();
    assert_eq!(attr.kind, FileKind::Directory);
    assert_eq!(attr.nlink, 2);
    (fs, store, dir)
}

#[test]
fn directory_listing() {
    let (mut fs, store, dir) = listing_fixture();
    let items = readdir(&mut fs, &store, dir, 0).unwrap();
    let got: Vec<(String, i64)> = items.iter().map(|i| (i.name.clone(), i.offset)).collect();
    assert_eq!(
        got,
        vec![
            (".".to_string(), 1),
            ("..".to_string(), 2),
            ("x".to_string(), 3),
            ("y".to_string(), 4)
        ]
    );
    assert_eq!(items[0].ino, dir);
    assert_eq!(items[2].kind, FileKind::RegularFile);
    let (x, xattr) = lookup(&mut fs, &store, dir, "x").unwrap();
    assert_eq!(x, items[2].ino);
    assert_eq!(xattr.size, 2);
}

#[test]
fn readdir_resumes_after_offset() {
    let (mut fs, store, dir) = listing_fixture();
    let from_one = readdir(&mut fs, &store, dir, 1).unwrap();
    let names: Vec<&str> = from_one.iter().map(|i| i.name.as_str()).collect();
    assert_eq!(names, vec!["..", "x", "y"]);
    let from_three = readdir(&mut fs, &store, dir, 3).unwrap();
    assert_eq!(from_three.len(), 1);
    assert_eq!(from_three[0].name, "y");
    assert_eq!(from_three[0].offset, 4);
    assert!(readdir(&mut fs, &store, dir, 9).unwrap().is_empty());
    let all = readdir(&mut fs, &store, dir, 0).unwrap();
    for w in all.windows(2) {
        assert!(w[0].offset < w[1].offset);
    }
}

#[test]
fn readdir_listing_failure_is_io_error() {
    let (mut fs, mut store, dir) = listing_fixture();
    store.up = false;
    assert!(matches!(readdir(&mut fs, &store, dir, 0), Err(FsError::Io)));
}

#[test]
fn lookup_miss() {
    let mut fs = RemoteFS::new(OWNER, at(1));
    let mut store = Store::new();
    store.add_file("/present", b"");
    assert_eq!(lookup(&mut fs, &store, ROOT_INO, "missing"), Err(FsError::NotFound));
    assert_eq!(lookup(&mut fs, &store, 99, "present"), Err(FsError::NotFound));
    store.up = false;
    assert_eq!(lookup(&mut fs, &store, ROOT_INO, "present"), Err(FsError::NotFound));
}

#[test]
fn rename_success() {
    let (mut fs, mut store, ino) = fresh_file();
    assert_eq!(rename(&mut fs, &mut store, ROOT_INO, "a.txt", ROOT_INO, "b.txt"), Ok(()));
    assert_eq!(lookup(&mut fs, &store, ROOT_INO, "a.txt"), Err(FsError::NotFound));
    assert_eq!(lookup(&mut fs, &store, ROOT_INO, "b.txt").unwrap().0, ino);
    assert_eq!(fs.get_path(ino).unwrap(), "/b.txt");
}

#[test]
fn rename_onto_known_path_drops_the_target() {
    let (mut fs, mut store, a) = fresh_file();
    let (b, _, _) = create(&mut fs, &mut store, ROOT_INO, "b.txt").unwrap();
    rename(&mut fs, &mut store, ROOT_INO, "a.txt", ROOT_INO, "b.txt").unwrap();
    assert_eq!(fs.getattr(b), Err(FsError::NotFound));
    assert_eq!(fs.registry.lookup_by_path(&"/b.txt".to_string()), Some(a));
}

#[test]
fn rename_failure_leaves_registry() {
    let (mut fs, mut store, ino) = fresh_file();
    assert_eq!(rename(&mut fs, &mut store, ROOT_INO, "nope", ROOT_INO, "b.txt"), Err(FsError::Io));
    assert_eq!(fs.get_path(ino).unwrap(), "/a.txt");
}

#[test]
fn remote_outage() {
    let (mut fs, mut store, ino) = fresh_file();
    write(&mut fs, &mut store, ino, 0, b"hello").unwrap();
    let before = fs.getattr(ino).unwrap();
    store.up = false;
    assert_eq!(read(&fs, &store, ino, 0, 5), Err(FsError::Io));
    assert_eq!(write(&mut fs, &mut store, ino, 0, b"x"), Err(FsError::Io));
    assert_eq!(fs.getattr(ino).unwrap(), before);
}

#[test]
fn path_lookup_inverts_inode_lookup() {
    let (mut fs, store, dir) = listing_fixture();
    readdir(&mut fs, &store, dir, 0).unwrap();
    for ino in 1..fs.registry.next_inode() {
        if let Some(node) = fs.registry.lookup_by_ino(ino) {
            assert_eq!(fs.registry.lookup_by_path(&node.path), Some(ino));
        }
    }
}

#[test]
fn inode_numbers_increase() {
    let mut fs = RemoteFS::new(OWNER, at(1));
    let mut store = Store::new();
    let (a, _, fa) = create(&mut fs, &mut store, ROOT_INO, "a").unwrap();
    let (b, _, fb) = create(&mut fs, &mut store, ROOT_INO, "b").unwrap();
    unlink(&mut fs, &mut store, ROOT_INO, "a").unwrap();
    let (c, _, _) = create(&mut fs, &mut store, ROOT_INO, "a").unwrap();
    assert_eq!((a, b, c), (2, 3, 4));
    assert_eq!((fa, fb), (1, 2));
    let (again, _, _) = create(&mut fs, &mut store, ROOT_INO, "b").unwrap();
    assert_eq!(again, b);
}

#[test]
fn unlink_clears_both_directions() {
    let (mut fs, mut store, ino) = fresh_file();
    assert_eq!(unlink(&mut fs, &mut store, ROOT_INO, "a.txt"), Ok(()));
    assert!(fs.registry.lookup_by_ino(ino).is_none());
    assert_eq!(fs.registry.lookup_by_path(&"/a.txt".to_string()), None);
    assert_eq!(unlink(&mut fs, &mut store, ROOT_INO, "a.txt"), Err(FsError::Io));
}

#[test]
fn rmdir_of_directory() {
    let mut fs = RemoteFS::new(OWNER, at(1));
    let mut store = Store::new();
    let (d, attr) = mkdir(&mut fs, &mut store, ROOT_INO, "sub").unwrap();
    assert_eq!(attr.perm, 0o755);
    assert_eq!(attr.nlink, 2);
    assert_eq!(attr.mtime, at(400));
    assert_eq!(fs.get_path(d).unwrap(), "/sub");
    let (inner, _, _) = create(&mut fs, &mut store, d, "f").unwrap();
    assert_eq!(fs.get_path(inner).unwrap(), "/sub/f");
    assert_eq!(unlink(&mut fs, &mut store, d, "f"), Ok(()));
    assert_eq!(unlink(&mut fs, &mut store, ROOT_INO, "sub"), Ok(()));
    assert_eq!(fs.getattr(d), Err(FsError::NotFound));
}

#[test]
fn failed_mkdir_leaves_registry() {
    let mut fs = RemoteFS::new(OWNER, at(1));
    let path = fs.path_from_parent_and_name(ROOT_INO, "d").unwrap();
    assert_eq!(fs.finish_mkdir(&path, Err(RemoteError), at(2)), Err(FsError::Io));
    assert_eq!(fs.registry.lookup_by_path(&path), None);
    assert_eq!(fs.registry.next_inode(), 2);
}

#[test]
fn failed_create_keeps_handle_counter() {
    let mut fs = RemoteFS::new(OWNER, at(1));
    let path = fs.path_from_parent_and_name(ROOT_INO, "f").unwrap();
    assert_eq!(fs.finish_create(&path, Err(RemoteError), at(2)), Err(FsError::Io));
    assert_eq!(fs.next_fh, 1);
}

#[test]
fn write_then_read_returns_data() {
    let (mut fs, mut store, ino) = fresh_file();
    write(&mut fs, &mut store, ino, 0, b"abcdefgh").unwrap();
    write(&mut fs, &mut store, ino, 3, b"XY").unwrap();
    assert_eq!(read(&fs, &store, ino, 3, 2).unwrap(), b"XY".to_vec());
    assert_eq!(read(&fs, &store, ino, 0, 100).unwrap(), b"abcXYfgh".to_vec());
}

#[test]
fn write_to_unknown_inode_is_not_found() {
    let (mut fs, mut store, _ino) = fresh_file();
    assert_eq!(write(&mut fs, &mut store, 42, 0, b"x"), Err(FsError::NotFound));
}

#[test]
fn write_with_negative_offset_is_io_error() {
    assert_eq!(RemoteFS::write_buffer(Ok(vec![1, 2]), -1, b"x"), Err(FsError::Io));
}

#[test]
fn write_buffer_treats_failed_fetch_as_empty() {
    assert_eq!(RemoteFS::write_buffer(Err(RemoteError), 2, b"ab"), Ok(vec![0, 0, b'a', b'b']));
}

#[test]
fn read_window_edges() {
    let d = b"hello".to_vec();
    assert_eq!(read_range(&d, 5, 3), Vec::<u8>::new());
    assert_eq!(read_range(&d, 9, 3), Vec::<u8>::new());
    assert_eq!(read_range(&d, -1, 3), Vec::<u8>::new());
    assert_eq!(read_range(&d, 3, 100), b"lo".to_vec());
    assert_eq!(read_range(&d, 1, 0), Vec::<u8>::new());
    assert_eq!(read_range(&Vec::new(), 0, 4), Vec::<u8>::new());
}

#[test]
fn splice_overwrites_and_extends() {
    assert_eq!(splice(b"hello".to_vec(), 1, b"EY"), b"hEYlo".to_vec());
    assert_eq!(splice(b"hi".to_vec(), 4, b"!"), b"hi\0\0!".to_vec());
    assert_eq!(splice(b"hi".to_vec(), 0, b""), b"hi".to_vec());
}

#[test]
fn getattr_root_and_unknown() {
    let fs = RemoteFS::new(OWNER, at(7));
    let root = fs.getattr(ROOT_INO).unwrap();
    assert_eq!(root.kind, FileKind::Directory);
    assert_eq!(root.perm, 0o755);
    assert_eq!(root.nlink, 2);
    assert_eq!(root.uid, 501);
    assert_eq!(root.gid, 20);
    assert_eq!(root.mtime, at(7));
    assert_eq!(fs.getattr(0), Err(FsError::NotFound));
    assert_eq!(fs.getattr(2), Err(FsError::NotFound));
}

#[test]
fn block_counts_round_up() {
    assert_eq!(block_count(0), 0);
    assert_eq!(block_count(1), 1);
    assert_eq!(block_count(512), 1);
    assert_eq!(block_count(513), 2);
    assert_eq!(block_count(u64::MAX), u64::MAX / 512 + 1);
}

#[test]
fn projection_follows_remote_metadata() {
    let a = project(false, 1000, at(10), at(5), 0o100640, OWNER);
    assert_eq!(a.perm, 0o640);
    assert_eq!(a.blocks, 2);
    assert_eq!(a.atime, at(10));
    assert_eq!(a.crtime, at(5));
    assert_eq!(a.nlink, 1);
    assert_eq!(a.blksize, 512);
    let d = project(true, 0, at(1), at(1), 0o40777, OWNER);
    assert_eq!(d.kind, FileKind::Directory);
    assert_eq!(d.perm, 0o777);
    assert_eq!(d.nlink, 2);
}

#[test]
fn child_paths_join_without_double_slash() {
    assert_eq!(child_path(&"/".to_string(), "a"), "/a");
    assert_eq!(child_path(&"/dir".to_string(), "b"), "/dir/b");
}

#[test]
fn file_info_from_headers() {
    let info = FileInfo::from_headers(Some("123"), Some("Sun, 06 Nov 1994 08:49:37 GMT"));
    assert_eq!(info.size, 123);
    assert_eq!(info.modified, at(784111777));
    assert!(!info.is_dir);
    let plus = FileInfo::from_headers(Some("+7"), Some("Sunday, 06-Nov-94 08:49:37 GMT"));
    assert_eq!(plus.size, 7);
    assert_eq!(plus.modified, at(784111777));
    let bad = FileInfo::from_headers(Some("12a"), Some("yesterday"));
    assert_eq!(bad.size, 0);
    assert_eq!(bad.modified, at(0));
    let none = FileInfo::from_headers(None, None);
    assert_eq!(none.size, 0);
    assert_eq!(none.modified, Timestamp::epoch());
}

#[test]
fn byte_ranges_for_ranged_reads() {
    assert_eq!(byte_range(0, 10), Some((0, 9)));
    assert_eq!(byte_range(100, 1), Some((100, 100)));
    assert_eq!(byte_range(5, 0), None);
    assert_eq!(byte_range(u64::MAX, 1), Some((u64::MAX, u64::MAX)));
    assert_eq!(byte_range(u64::MAX, 2), None);
}

#[test]
fn readdir_refreshes_cached_attributes() {
    let (mut fs, mut store, dir) = listing_fixture();
    let items = readdir(&mut fs, &store, dir, 0).unwrap();
    let x = items[2].ino;
    assert_eq!(fs.getattr(x).unwrap().size, 2);
    store.write("/dir/x", b"longer").unwrap();
    let again = readdir(&mut fs, &store, dir, 0).unwrap();
    let x_again = again.iter().find(|i| i.name == "x").unwrap();
    assert_eq!(x_again.ino, x);
    assert_eq!(fs.getattr(x).unwrap().size, 6);
    assert_eq!(fs.getattr(x).unwrap().perm, 0o644);
}

#[test]
fn root_stays_a_directory() {
    let mut fs = RemoteFS::new(OWNER, at(3));
    let odd = FileEntry {
        name: String::new(),
        is_dir: false,
        size: 9,
        mtime: at(4),
        ctime: at(4),
        mode: 0o100600,
    };
    let root_path = fs.get_path(ROOT_INO).unwrap();
    fs.readdir(ROOT_INO, &root_path, 0, Ok(vec![odd])).unwrap();
    let root = fs.getattr(ROOT_INO).unwrap();
    assert_eq!(root.kind, FileKind::Directory);
    assert_eq!(root.size, 0);
    assert_eq!(root.mtime, at(3));
}
