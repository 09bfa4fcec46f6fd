use vstd::prelude::*;
use vstd::string::StringExecFns;

use crate::attrs::{
    Attrs, FileKind, Owner, Timestamp, after_write, fresh, fresh_attrs, kind_of, perm_of,
    project, projected, written_attrs,
};
use crate::data::{read_range, read_window, splice, spliced};
use crate::path::{child_path, joined, lemma_joined_injective};
use crate::registry::{Registry, ROOT_INO, root_path};
use crate::remote::{FileEntry, RemoteError};

verus! {

/// The error kinds that a filesystem operation replies with.
#[derive(Clone, Copy, Debug, PartialEq, Eq, Structural)]
pub enum FsError {
    /// The path or inode does not resolve, or the name is not in the listing.
    NotFound,
    /// The remote store failed, or a limit of this filesystem was reached.
    Io,
}

/// One entry of a directory reply: the inode, the offset at which a later
/// call resumes after it, its kind and its name.
pub struct DirItem {
    pub ino: u64,
    pub offset: i64,
    pub kind: FileKind,
    pub name: String,
}

/// What a lookup needs next.
pub enum Lookup {
    /// The child is known: reply with its cached record.
    Known { ino: u64, attr: Attrs },
    /// The child is not known: list `parent_path` and pass the listing to
    /// `lookup_listed` with `child_path`.
    Listing { parent_path: String, child_path: String },
}

/// Largest listing whose entries all have an offset that fits in `i64`.
pub const MAX_LISTING: u64 = 0x7fff_ffff_ffff_fff0;

/// The attribute record of a listing entry.
pub open spec fn entry_attrs(e: FileEntry, owner: Owner) -> Attrs {
    projected(e.is_dir, e.size, e.mtime, e.ctime, perm_of(e.mode), owner)
}

/// `i` is the first position of `entries` whose name is `name`.
pub open spec fn is_first_named(entries: Seq<FileEntry>, name: Seq<char>, i: int) -> bool {
    &&& 0 <= i < entries.len()
    &&& entries[i].name@ == name
    &&& forall|j: int| 0 <= j < i ==> (#[trigger] entries[j]).name@ != name
}

/// The first position of `entries` whose name is `name`, if any.
pub open spec fn first_named(entries: Seq<FileEntry>, name: Seq<char>) -> Option<int> {
    if exists|i: int| is_first_named(entries, name, i) {
        Some(choose|i: int| is_first_named(entries, name, i))
    } else {
        None
    }
}

/// The contents a write starts from: what was fetched, or nothing when the
/// fetch failed.
pub open spec fn base_contents(fetched: Result<Vec<u8>, RemoteError>) -> Seq<u8> {
    match fetched {
        Ok(d) => d@,
        Err(_) => Seq::empty(),
    }
}

/// Where a directory reply starts: negative offsets count as zero.
pub open spec fn start_of(offset: i64) -> int {
    if offset < 0 {
        0
    } else {
        offset as int
    }
}

/// How many of `.` and `..` a directory reply from `start` holds.
pub open spec fn dots_from(start: int) -> int {
    if start == 0 {
        2
    } else if start == 1 {
        1
    } else {
        0
    }
}

/// The first listing position that a directory reply from `start` holds.
pub open spec fn first_listed(start: int, len: int) -> int {
    if start < 2 {
        0
    } else if start - 2 < len {
        start - 2
    } else {
        len
    }
}

/// The name of the synthetic entry at offset `pos` (0 or 1).
pub open spec fn dot_name(pos: int) -> Seq<char> {
    if pos == 0 {
        seq!['.']
    } else {
        seq!['.', '.']
    }
}

/// `items` is the reply to a listing of `dir` with entries `v` of inode
/// `ino` from offset `start`, against the registry `reg`.
pub open spec fn dir_reply(
    items: Seq<DirItem>,
    ino: u64,
    dir: Seq<char>,
    v: Seq<FileEntry>,
    start: int,
    reg: Registry,
    owner: Owner,
) -> bool {
    let dots = dots_from(start);
    let first = first_listed(start, v.len() as int);
    &&& items.len() == dots + (v.len() - first)
    &&& forall|j: int|
        0 <= j < dots ==> {
            &&& (#[trigger] items[j]).ino == ino
            &&& items[j].offset == start + j + 1
            &&& items[j].kind == FileKind::Directory
            &&& items[j].name@ == dot_name(start + j)
        }
    &&& entries_recorded(items, dots, dir, v, first, v.len() as int, reg, owner)
}

/// The items from position `dots` on answer the entries of `v` at positions
/// `first` up to `k`: offset, kind and name from the entry, an inode that
/// names the entry's path in `reg`, and the entry's attributes cached there
/// unless a later entry up to `k` has the same name.
pub open spec fn entries_recorded(
    items: Seq<DirItem>,
    dots: int,
    dir: Seq<char>,
    v: Seq<FileEntry>,
    first: int,
    k: int,
    reg: Registry,
    owner: Owner,
) -> bool {
    forall|m: int|
        0 <= m < k - first ==> {
            let it = #[trigger] items[dots + m];
            let e = v[first + m];
            &&& it.offset == first + m + 3
            &&& it.kind == kind_of(e.is_dir)
            &&& it.name@ == e.name@
            &&& reg@.contains_key(it.ino)
            &&& reg@[it.ino].0 == joined(dir, e.name@)
            &&& last_of_name(v, first + m, k) ==> reg@[it.ino].1 == entry_attrs(e, owner)
        }
}

/// No entry of `v` at a position in `(k, hi)` has the name of entry `k`.
pub open spec fn last_of_name(v: Seq<FileEntry>, k: int, hi: int) -> bool {
    forall|j: int| k < j < hi ==> (#[trigger] v[j]).name@ != v[k].name@
}

/// `p` is the path of an entry of `v` at a position in `[lo, hi)`.
pub open spec fn listed_path(dir: Seq<char>, v: Seq<FileEntry>, lo: int, hi: int, p: Seq<char>) -> bool {
    exists|j: int| lo <= j < hi && p == #[trigger] joined(dir, v[j].name@)
}

/// `after` is `before` with only the paths of the entries of `v` at
/// positions in `[lo, hi)` recorded: each new inode names such a path,
/// every other inode keeps its record, and at most one inode was issued per
/// entry.
pub open spec fn only_listed(
    before: Registry,
    after: Registry,
    dir: Seq<char>,
    v: Seq<FileEntry>,
    lo: int,
    hi: int,
) -> bool {
    &&& after.next_ino() <= before.next_ino() + (hi - lo)
    &&& forall|x: u64| #[trigger]
        after@.contains_key(x) ==> before@.contains_key(x) || listed_path(dir, v, lo, hi, after@[x].0)
    &&& forall|x: u64| #[trigger]
        before@.contains_key(x) && !listed_path(dir, v, lo, hi, before@[x].0) ==> after@[x]
            == before@[x]
}

/// The offsets of a directory reply strictly increase.
pub open spec fn offsets_increase(items: Seq<DirItem>) -> bool {
    forall|j: int| 0 <= j && j + 1 < items.len() ==> #[trigger] items[j].offset < items[j + 1].offset
}

/// Every inode of `before` is live in `after` on the same path, and inode
/// numbers were not lowered.
pub open spec fn keeps_paths(before: Registry, after: Registry) -> bool {
    &&& forall|x: u64| #[trigger]
        before@.contains_key(x) ==> after@.contains_key(x) && after@[x].0 == before@[x].0
    &&& after.next_ino() >= before.next_ino()
}

/// One recorded listing entry keeps what the earlier ones established.
proof fn lemma_record_step(
    reg0: Registry,
    before: Registry,
    after: Registry,
    dir: Seq<char>,
    v: Seq<FileEntry>,
    first: int,
    k: int,
    p: Seq<char>,
    attr: Attrs,
    child: u64,
    items: Seq<DirItem>,
    dots: int,
    owner: Owner,
)
    requires
        before.wf(),
        0 <= first <= k < v.len(),
        p == joined(dir, v[k].name@),
        before.interned(after, p, attr, Some(child)),
        only_listed(reg0, before, dir, v, first, k),
        keeps_paths(reg0, before),
        items.len() == dots + (k - first),
        forall|m: int|
            0 <= m < k - first ==> {
                let it = #[trigger] items[dots + m];
                let e = v[first + m];
                &&& before@.contains_key(it.ino)
                &&& before@[it.ino].0 == joined(dir, e.name@)
                &&& last_of_name(v, first + m, k) ==> before@[it.ino].1 == entry_attrs(e, owner)
            },
    ensures
        only_listed(reg0, after, dir, v, first, k + 1),
        keeps_paths(reg0, after),
        after.next_ino() <= before.next_ino() + 1,
        forall|m: int|
            0 <= m < k - first ==> {
                let it = #[trigger] items[dots + m];
                let e = v[first + m];
                &&& after@.contains_key(it.ino)
                &&& after@[it.ino].0 == joined(dir, e.name@)
                &&& last_of_name(v, first + m, k + 1) ==> after@[it.ino].1 == entry_attrs(e, owner)
            },
{
    before.lemma_interned_keeps(after, p, attr, Some(child));
    assert forall|x: u64| #[trigger] after@.contains_key(x) implies reg0@.contains_key(x)
        || listed_path(dir, v, first, k + 1, after@[x].0) by {
        if x == child {
            assert(after@[x].0 == joined(dir, v[k].name@));
        } else {
            assert(before@.contains_key(x));
            if listed_path(dir, v, first, k, before@[x].0) {
                let j = choose|j: int| first <= j < k && before@[x].0 == #[trigger] joined(dir, v[j].name@);
                assert(after@[x].0 == joined(dir, v[j].name@));
            }
        }
    }
    assert forall|x: u64| #[trigger] reg0@.contains_key(x) && !listed_path(
        dir,
        v,
        first,
        k + 1,
        reg0@[x].0,
    ) implies after@[x] == reg0@[x] by {
        if listed_path(dir, v, first, k, reg0@[x].0) {
            let j = choose|j: int| first <= j < k && reg0@[x].0 == #[trigger] joined(dir, v[j].name@);
            assert(listed_path(dir, v, first, k + 1, reg0@[x].0));
        }
        assert(before@[x] == reg0@[x]);
        if x == child {
            assert(before@[x].0 == p);
            assert(listed_path(dir, v, first, k + 1, reg0@[x].0));
        }
    }
    assert forall|m: int| 0 <= m < k - first implies {
        let it = #[trigger] items[dots + m];
        let e = v[first + m];
        &&& after@.contains_key(it.ino)
        &&& after@[it.ino].0 == joined(dir, e.name@)
        &&& last_of_name(v, first + m, k + 1) ==> after@[it.ino].1 == entry_attrs(e, owner)
    } by {
        let x = items[dots + m].ino;
        if last_of_name(v, first + m, k + 1) {
            assert(v[k].name@ != v[first + m].name@);
            lemma_joined_injective(dir, v[k].name@, v[first + m].name@);
            assert(last_of_name(v, first + m, k));
            assert(x != child);
        }
    }
}

/// The offsets of a directory reply strictly increase and all lie past the
/// offset it started from.
proof fn lemma_reply_offsets(
    items: Seq<DirItem>,
    dots: int,
    start: int,
    first: int,
    dir: Seq<char>,
    v: Seq<FileEntry>,
    reg: Registry,
    owner: Owner,
)
    requires
        start >= 0,
        dots == dots_from(start),
        first == first_listed(start, v.len() as int),
        items.len() == dots + (v.len() - first),
        forall|j: int| 0 <= j < dots ==> (#[trigger] items[j]).offset == start + j + 1,
        entries_recorded(items, dots, dir, v, first, v.len() as int, reg, owner),
    ensures
        offsets_increase(items),
        forall|j: int| 0 <= j < items.len() ==> #[trigger] items[j].offset > start,
{
    assert forall|j: int| 0 <= j < items.len() implies #[trigger] items[j].offset > start by {
        if j >= dots {
            assert(items[dots + (j - dots)].offset == first + (j - dots) + 3);
        }
    }
    assert forall|j: int| 0 <= j && j + 1 < items.len() implies #[trigger] items[j].offset
        < items[j + 1].offset by {
        if j + 1 < dots {
        } else if j < dots {
            assert(items[dots + 0].offset == first + 3);
        } else {
            assert(items[dots + (j - dots)].offset == first + (j - dots) + 3);
            assert(items[dots + (j + 1 - dots)].offset == first + (j + 1 - dots) + 3);
        }
    }
}

/// The filesystem's state: the inode registry, the owner that every object
/// is reported with, the next file handle to hand out, and the time of the
/// mount, which the root directory reports.
///
/// Each operation is split where it needs the remote store: a first step
/// resolves inodes to paths, the caller performs the remote call, and a
/// final step takes the call's outcome and yields the one reply.
pub struct RemoteFS {
    pub registry: Registry,
    pub owner: Owner,
    pub next_fh: u64,
    pub mounted_at: Timestamp,
}

impl RemoteFS {
    pub open spec fn wf(&self) -> bool {
        self.registry.wf()
    }

    /// A filesystem that knows only its root, a directory made at `now`.
    pub fn new(owner: Owner, now: Timestamp) -> (r: RemoteFS)
        ensures
            r.wf(),
            r.registry@ == map![ROOT_INO => (root_path(), fresh(true, now, owner))],
            r.registry.next_ino() == 2,
            r.owner == owner,
            r.next_fh == 1,
            r.mounted_at == now,
    {
        let root = fresh_attrs(true, now, owner);
        RemoteFS { registry: Registry::new(root), owner, next_fh: 1, mounted_at: now }
    }

    /// The path that `ino` names.
    pub fn get_path(&self, ino: u64) -> (r: Result<String, FsError>)
        requires
            self.wf(),
        ensures
            match r {
                Ok(p) => self.registry@.contains_key(ino) && p@ == self.registry@[ino].0,
                Err(e) => !self.registry@.contains_key(ino) && e == FsError::NotFound,
            },
    {
        match self.registry.lookup_by_ino(ino) {
            Some(node) => Ok(node.path),
            None => Err(FsError::NotFound),
        }
    }

    /// The path of `name` inside the directory `parent`.
    pub fn path_from_parent_and_name(&self, parent: u64, name: &str) -> (r: Result<String, FsError>)
        requires
            self.wf(),
        ensures
            match r {
                Ok(p) => {
                    &&& self.registry@.contains_key(parent)
                    &&& p@ == joined(self.registry@[parent].0, name@)
                    &&& name@.len() > 0 ==> p@ != root_path()
                },
                Err(e) => !self.registry@.contains_key(parent) && e == FsError::NotFound,
            },
    {
        let parent_path = self.get_path(parent)?;
        proof {
            lemma_joined_injective(parent_path@, name@, name@);
        }
        Ok(child_path(&parent_path, name))
    }

    /// The cached attributes of `ino`; for the root, a directory record made
    /// at the time of the mount.
    pub fn getattr(&self, ino: u64) -> (r: Result<Attrs, FsError>)
        requires
            self.wf(),
        ensures
            ino == ROOT_INO ==> r == Ok::<Attrs, FsError>(fresh(true, self.mounted_at, self.owner)),
            ino != ROOT_INO && self.registry@.contains_key(ino) ==> r == Ok::<Attrs, FsError>(
                self.registry@[ino].1,
            ),
            !self.registry@.contains_key(ino) ==> r == Err::<Attrs, FsError>(FsError::NotFound),
    {
        if ino == ROOT_INO {
            proof {
                self.registry.lemma_root();
            }
            return Ok(fresh_attrs(true, self.mounted_at, self.owner));
        }
        match self.registry.lookup_by_ino(ino) {
            Some(node) => Ok(node.attr),
            None => Err(FsError::NotFound),
        }
    }

    /// First step of a lookup of `name` in `parent`: the cached record when
    /// the child's path is known, else the paths to list and to record.
    pub fn lookup(&self, parent: u64, name: &str) -> (r: Result<Lookup, FsError>)
        requires
            self.wf(),
        ensures
            !self.registry@.contains_key(parent) ==> r == Err::<Lookup, FsError>(
                FsError::NotFound,
            ),
            self.registry@.contains_key(parent) ==> {
                let p = joined(self.registry@[parent].0, name@);
                match self.registry.ino_of(p) {
                    Some(i) => r == Ok::<Lookup, FsError>(
                        Lookup::Known { ino: i, attr: self.registry@[i].1 },
                    ),
                    None => match r {
                        Ok(Lookup::Listing { parent_path, child_path }) => parent_path@
                            == self.registry@[parent].0 && child_path@ == p,
                        _ => false,
                    },
                }
            },
    {
        let parent_path = self.get_path(parent)?;
        let path = child_path(&parent_path, name);
        match self.registry.lookup_by_path(&path) {
            Some(ino) => {
                proof {
                    self.registry.lemma_ino_of_known(path@);
                }
                let attr = match self.registry.lookup_by_ino(ino) {
                    Some(node) => node.attr,
                    None => {
                        return Err(FsError::NotFound);
                    },
                };
                Ok(Lookup::Known { ino, attr })
            },
            None => Ok(Lookup::Listing { parent_path, child_path: path }),
        }
    }

    /// Final step of a lookup: finds `name` in the listing of the parent and
    /// records `child_path` with the attributes of its first match.
    pub fn lookup_listed(
        &mut self,
        child_path: &String,
        name: &str,
        listing: Result<Vec<FileEntry>, RemoteError>,
    ) -> (r: Result<(u64, Attrs), FsError>)
        requires
            old(self).wf(),
        ensures
            final(self).wf(),
            final(self).owner == old(self).owner,
            final(self).next_fh == old(self).next_fh,
            match listing {
                Err(_) => r == Err::<(u64, Attrs), FsError>(FsError::NotFound) && final(self).registry
                    == old(self).registry,
                Ok(v) => match first_named(v@, name@) {
                    None => r == Err::<(u64, Attrs), FsError>(FsError::NotFound)
                        && final(self).registry == old(self).registry,
                    Some(k) => {
                        let a = entry_attrs(v@[k], old(self).owner);
                        match r {
                            Ok((i, attr)) => attr == a && old(self).registry.interned(
                                final(self).registry,
                                child_path@,
                                a,
                                Some(i),
                            ),
                            Err(e) => e == FsError::Io && old(self).registry.interned(
                                final(self).registry,
                                child_path@,
                                a,
                                None,
                            ),
                        }
                    },
                },
            },
    {
        let ghost given = listing;
        let entries = match listing {
            Ok(v) => v,
            Err(_) => {
                return Err(FsError::NotFound);
            },
        };
        let wanted = String::from_str(name);
        let mut k: usize = 0;
        while k < entries.len()
            invariant
                k <= entries@.len(),
                wanted@ == name@,
                given == listing,
                given == Ok::<Vec<FileEntry>, RemoteError>(entries),
                self.wf(),
                self.owner == old(self).owner,
                self.next_fh == old(self).next_fh,
                self.registry == old(self).registry,
                forall|j: int| 0 <= j < k ==> (#[trigger] entries@[j]).name@ != name@,
            decreases entries@.len() - k,
        {
            let e = &entries[k];
            if e.name == wanted {
                proof {
                    assert(is_first_named(entries@, name@, k as int));
                    let c = choose|i: int| is_first_named(entries@, name@, i);
                    assert(is_first_named(entries@, name@, c));
                    assert(c == k);
                }
                let attr = project(e.is_dir, e.size, e.mtime, e.ctime, e.mode, self.owner);
                return match self.registry.intern(child_path, attr) {
                    Some(ino) => Ok((ino, attr)),
                    None => Err(FsError::Io),
                };
            }
            k += 1;
        }
        Err(FsError::NotFound)
    }
    /// Final step of a directory read: `.` and `..` at offsets 0 and 1, then
    /// the entry at listing position `k` with resumption offset `k + 3`, from
    /// `offset` on. Every listed entry is recorded with fresh attributes.
    pub fn readdir(
        &mut self,
        ino: u64,
        dir_path: &String,
        offset: i64,
        listing: Result<Vec<FileEntry>, RemoteError>,
    ) -> (r: Result<Vec<DirItem>, FsError>)
        requires
            old(self).wf(),
            old(self).registry@.contains_key(ino),
            dir_path@ == old(self).registry@[ino].0,
            match listing {
                Ok(v) => v@.len() <= MAX_LISTING,
                Err(_) => true,
            },
        ensures
            final(self).wf(),
            final(self).owner == old(self).owner,
            final(self).next_fh == old(self).next_fh,
            keeps_paths(old(self).registry, final(self).registry),
            match listing {
                Err(_) => r is Err && r->Err_0 == FsError::Io && final(self).registry == old(self).registry,
                Ok(v) => {
                    &&& (r is Err ==> r->Err_0 == FsError::Io && old(self).registry.next_ino()
                        + v@.len() >= u64::MAX)
                    &&& (r is Ok ==> {
                        let items = r->Ok_0@;
                        &&& dir_reply(
                            items,
                            ino,
                            dir_path@,
                            v@,
                            start_of(offset),
                            final(self).registry,
                            old(self).owner,
                        )
                        &&& offsets_increase(items)
                        &&& forall|j: int|
                            0 <= j < items.len() ==> #[trigger] items[j].offset > start_of(offset)
                        &&& only_listed(
                            old(self).registry,
                            final(self).registry,
                            dir_path@,
                            v@,
                            first_listed(start_of(offset), v@.len() as int),
                            v@.len() as int,
                        )
                    })
                },
            },
    {
        let entries = match listing {
            Ok(v) => v,
            Err(_) => {
                return Err(FsError::Io);
            },
        };
        let start: i64 = if offset < 0 {
            0
        } else {
            offset
        };
        let ghost dots = dots_from(start as int);
        let mut items: Vec<DirItem> = Vec::new();
        proof {
            reveal_strlit(".");
            reveal_strlit("..");
        }
        if start == 0 {
            items.push(DirItem { ino, offset: 1, kind: FileKind::Directory, name: String::from_str(".") });
        }
        if start <= 1 {
            items.push(DirItem { ino, offset: 2, kind: FileKind::Directory, name: String::from_str("..") });
        }
        let first: usize = if start < 2 {
            0
        } else if ((start - 2) as u64) < entries.len() as u64 {
            (start - 2) as usize
        } else {
            entries.len()
        };
        let ghost dot_items = items@;
        assert(forall|j: int|
            0 <= j < dots ==> {
                &&& (#[trigger] dot_items[j]).ino == ino
                &&& dot_items[j].offset == start + j + 1
                &&& dot_items[j].kind == FileKind::Directory
                &&& dot_items[j].name@ == dot_name(start + j)
            });
        if !self.record_entries(dir_path, &entries, first, &mut items, Ghost(dots)) {
            return Err(FsError::Io);
        }
        proof {
            assert(forall|j: int| 0 <= j < dots ==> #[trigger] items@[j] == dot_items[j]);
            lemma_reply_offsets(
                items@,
                dots,
                start as int,
                first as int,
                dir_path@,
                entries@,
                self.registry,
                self.owner,
            );
        }
        Ok(items)
    }

    /// Records the entries of `entries` from position `first` on under
    /// `dir_path` and appends their reply items to `items`; `false` when the
    /// inode numbers ran out.
    fn record_entries(
        &mut self,
        dir_path: &String,
        entries: &Vec<FileEntry>,
        first: usize,
        items: &mut Vec<DirItem>,
        dots: Ghost<int>,
    ) -> (ok: bool)
        requires
            old(self).wf(),
            first <= entries@.len() <= MAX_LISTING,
            dots@ >= 0,
            old(items)@.len() == dots@,
        ensures
            final(self).wf(),
            final(self).owner == old(self).owner,
            final(self).next_fh == old(self).next_fh,
            keeps_paths(old(self).registry, final(self).registry),
            !ok ==> old(self).registry.next_ino() + (entries@.len() - first) >= u64::MAX,
            ok ==> {
                &&& final(items)@.len() == dots@ + (entries@.len() - first)
                &&& forall|j: int| 0 <= j < dots@ ==> #[trigger] final(items)@[j] == old(items)@[j]
                &&& entries_recorded(
                    final(items)@,
                    dots@,
                    dir_path@,
                    entries@,
                    first as int,
                    entries@.len() as int,
                    final(self).registry,
                    final(self).owner,
                )
                &&& only_listed(
                    old(self).registry,
                    final(self).registry,
                    dir_path@,
                    entries@,
                    first as int,
                    entries@.len() as int,
                )
            },
    {
        let ghost dots = dots@;
        let mut k: usize = first;
        proof {
                }
        while k < entries.len()
            invariant
                first <= k <= entries@.len(),
                entries@.len() <= MAX_LISTING,
                dots >= 0,
                items@.len() == dots + (k - first),
                forall|j: int| 0 <= j < dots ==> #[trigger] items@[j] == old(items)@[j],
                entries_recorded(
                    items@,
                    dots,
                    dir_path@,
                    entries@,
                    first as int,
                    k as int,
                    self.registry,
                    self.owner,
                ),
                only_listed(old(self).registry, self.registry, dir_path@, entries@, first as int, k as int),
                self.registry.next_ino() <= old(self).registry.next_ino() + (k - first),
                self.wf(),
                self.owner == old(self).owner,
                self.next_fh == old(self).next_fh,
                keeps_paths(old(self).registry, self.registry),
            decreases entries@.len() - k,
        {
            let e = &entries[k];
            let p = child_path(dir_path, e.name.as_str());
            let attr = project(e.is_dir, e.size, e.mtime, e.ctime, e.mode, self.owner);
            let ghost before = self.registry;
            let got = self.registry.intern(&p, attr);
            proof {
                before.lemma_interned_keeps(self.registry, p@, attr, got);
            }
            let child = match got {
                Some(i) => i,
                None => {
                    return false;
                },
            };
            proof {
                lemma_record_step(
                    old(self).registry,
                    before,
                    self.registry,
                    dir_path@,
                    entries@,
                    first as int,
                    k as int,
                    p@,
                    attr,
                    child,
                    items@,
                    dots,
                    self.owner,
                );
            }
            let kind = if e.is_dir {
                FileKind::Directory
            } else {
                FileKind::RegularFile
            };
            let ghost prior = items@;
            items.push(DirItem { ino: child, offset: k as i64 + 3, kind, name: e.name.clone() });
            proof {
                assert forall|m: int| 0 <= m < k + 1 - first implies {
                    let it = #[trigger] items@[dots + m];
                    let e = entries@[first + m];
                    &&& it.offset == first + m + 3
                    &&& it.kind == kind_of(e.is_dir)
                    &&& it.name@ == e.name@
                    &&& self.registry@.contains_key(it.ino)
                    &&& self.registry@[it.ino].0 == joined(dir_path@, e.name@)
                    &&& last_of_name(entries@, first + m, k + 1) ==> self.registry@[it.ino].1
                        == entry_attrs(e, self.owner)
                } by {
                    if m < k - first {
                        assert(items@[dots + m] == prior[dots + m]);
                    }
                }
                assert(forall|j: int| 0 <= j < dots ==> #[trigger] items@[j] == prior[j]);
            }
            k += 1;
        }
        true
    }

    /// Final step of a read: the requested window of the fetched object, or
    /// an I/O error when the fetch failed.
    pub fn read(&self, fetched: Result<Vec<u8>, RemoteError>, offset: i64, size: u32) -> (r: Result<Vec<u8>, FsError>)
        ensures
            match fetched {
                Ok(d) => r is Ok && r->Ok_0@ == read_window(d@, offset as int, size as int),
                Err(_) => r is Err && r->Err_0 == FsError::Io,
            },
    {
        match fetched {
            Ok(d) => Ok(read_range(&d, offset, size)),
            Err(_) => Err(FsError::Io),
        }
    }

    /// The whole object to send back for a write of `data` at `offset`:
    /// the fetched contents, or nothing when the fetch failed, with `data`
    /// laid over them and zero bytes in any gap. A negative offset, or an
    /// end past the address space, is an I/O error.
    pub fn write_buffer(fetched: Result<Vec<u8>, RemoteError>, offset: i64, data: &[u8]) -> (r: Result<Vec<u8>, FsError>)
        ensures
            offset < 0 || offset + data@.len() > usize::MAX ==> r is Err && r->Err_0 == FsError::Io,
            !(offset < 0 || offset + data@.len() > usize::MAX) ==> r is Ok && r->Ok_0@ == spliced(
                base_contents(fetched),
                offset as int,
                data@,
            ),
    {
        if offset < 0 || offset as u64 > (usize::MAX - data.len()) as u64 {
            return Err(FsError::Io);
        }
        let base = match fetched {
            Ok(d) => d,
            Err(_) => Vec::new(),
        };
        Ok(splice(base, offset as usize, data))
    }

    /// Final step of a write of `count` bytes that left the object `size`
    /// bytes long: on success the cached size and modification time of
    /// `ino` are updated and `count` is the reply; on failure nothing changes.
    pub fn finish_write(
        &mut self,
        ino: u64,
        size: usize,
        count: usize,
        sent: Result<(), RemoteError>,
        now: Timestamp,
    ) -> (r: Result<u32, FsError>)
        requires
            old(self).wf(),
            count <= u32::MAX,
        ensures
            final(self).wf(),
            final(self).owner == old(self).owner,
            final(self).next_fh == old(self).next_fh,
            final(self).registry.next_ino() == old(self).registry.next_ino(),
            sent is Err ==> r is Err && r->Err_0 == FsError::Io && final(self).registry == old(self).registry,
            sent is Ok ==> r is Ok && r->Ok_0 == count as u32,
            sent is Ok && old(self).registry@.contains_key(ino) ==> final(self).registry@ == old(self).registry@.insert(
                ino,
                (
                    old(self).registry@[ino].0,
                    after_write(old(self).registry@[ino].1, size as u64, now),
                ),
            ),
            sent is Ok && !old(self).registry@.contains_key(ino) ==> final(self).registry@ == old(self).registry@,
    {
        if sent.is_err() {
            return Err(FsError::Io);
        }
        match self.registry.lookup_by_ino(ino) {
            Some(node) => {
                let attr = written_attrs(node.attr, size as u64, now);
                self.registry.update_attrs(ino, attr);
            },
            None => {},
        }
        Ok(count as u32)
    }

    /// Final step of a file creation at `path`: records an empty file made
    /// at `now` and hands out the next file handle.
    pub fn finish_create(&mut self, path: &String, sent: Result<(), RemoteError>, now: Timestamp) -> (r: Result<(u64, Attrs, u64), FsError>)
        requires
            old(self).wf(),
        ensures
            final(self).wf(),
            final(self).owner == old(self).owner,
            sent is Err || old(self).next_fh == u64::MAX ==> r is Err && r->Err_0 == FsError::Io
                && final(self).registry == old(self).registry && final(self).next_fh == old(self).next_fh,
            sent is Ok && old(self).next_fh < u64::MAX ==> {
                let a = fresh(false, now, old(self).owner);
                match r {
                    Ok((i, attr, fh)) => {
                        &&& attr == a
                        &&& fh == old(self).next_fh
                        &&& final(self).next_fh == old(self).next_fh + 1
                        &&& old(self).registry.interned(final(self).registry, path@, a, Some(i))
                    },
                    Err(e) => {
                        &&& e == FsError::Io
                        &&& final(self).next_fh == old(self).next_fh
                        &&& old(self).registry.interned(final(self).registry, path@, a, None)
                    },
                }
            },
    {
        if sent.is_err() || self.next_fh == u64::MAX {
            return Err(FsError::Io);
        }
        let attr = fresh_attrs(false, now, self.owner);
        match self.registry.intern(path, attr) {
            Some(ino) => {
                let fh = self.next_fh;
                self.next_fh = fh + 1;
                Ok((ino, attr, fh))
            },
            None => Err(FsError::Io),
        }
    }

    /// Final step of a directory creation at `path`: records an empty
    /// directory made at `now`. On failure nothing changes.
    pub fn finish_mkdir(&mut self, path: &String, sent: Result<(), RemoteError>, now: Timestamp) -> (r: Result<(u64, Attrs), FsError>)
        requires
            old(self).wf(),
        ensures
            final(self).wf(),
            final(self).owner == old(self).owner,
            final(self).next_fh == old(self).next_fh,
            sent is Err ==> r is Err && r->Err_0 == FsError::Io && final(self).registry == old(self).registry,
            sent is Ok ==> {
                let a = fresh(true, now, old(self).owner);
                match r {
                    Ok((i, attr)) => attr == a && old(self).registry.interned(
                        final(self).registry,
                        path@,
                        a,
                        Some(i),
                    ),
                    Err(e) => e == FsError::Io && old(self).registry.interned(
                        final(self).registry,
                        path@,
                        a,
                        None,
                    ),
                }
            },
    {
        if sent.is_err() {
            return Err(FsError::Io);
        }
        let attr = fresh_attrs(true, now, self.owner);
        match self.registry.intern(path, attr) {
            Some(ino) => Ok((ino, attr)),
            None => Err(FsError::Io),
        }
    }

    /// Final step of an unlink or rmdir of `path`: once the remote store
    /// confirmed, both directions for `path` are removed; on failure nothing
    /// changes.
    pub fn finish_remove(&mut self, path: &String, sent: Result<(), RemoteError>) -> (r: Result<(), FsError>)
        requires
            old(self).wf(),
        ensures
            final(self).wf(),
            final(self).owner == old(self).owner,
            final(self).next_fh == old(self).next_fh,
            sent is Err ==> r is Err && r->Err_0 == FsError::Io && final(self).registry == old(self).registry,
            sent is Ok ==> {
                &&& r is Ok
                &&& old(self).registry.forgotten(
                    final(self).registry,
                    path@,
                    old(self).registry.removal(path@),
                )
                &&& path@ != root_path() ==> final(self).registry.ino_of(path@) is None
                &&& old(self).registry.removal(path@) is Some ==> !final(self).registry@.contains_key(old(self).registry.removal(path@).unwrap())
                &&& path@ != root_path() ==> old(self).registry.removal(path@) == old(self).registry.ino_of(path@)
            },
    {
        if sent.is_err() {
            return Err(FsError::Io);
        }
        proof {
            if path@ != root_path() {
                self.registry.lemma_not_root(path@, path@);
            }
        }
        self.registry.forget(path);
        Ok(())
    }

    /// Final step of a rename of `from` to `to`: once the remote store
    /// confirmed, the inode of `from` is moved to `to` in both directions;
    /// on failure nothing changes.
    pub fn finish_rename(&mut self, from: &String, to: &String, sent: Result<(), RemoteError>) -> (r: Result<(), FsError>)
        requires
            old(self).wf(),
        ensures
            final(self).wf(),
            final(self).owner == old(self).owner,
            final(self).next_fh == old(self).next_fh,
            sent is Err ==> r is Err && r->Err_0 == FsError::Io && final(self).registry == old(self).registry,
            sent is Ok ==> {
                let m = old(self).registry.moved(from@, to@);
                &&& r is Ok
                &&& old(self).registry.rekeyed(final(self).registry, from@, to@, m)
                &&& m is Some ==> final(self).registry.ino_of(to@) == m
                &&& m is Some && from@ != to@ ==> final(self).registry.ino_of(from@) is None
                &&& from@ != root_path() && to@ != root_path() ==> m == old(self).registry.ino_of(
                    from@,
                )
            },
    {
        if sent.is_err() {
            return Err(FsError::Io);
        }
        proof {
            if from@ != root_path() && to@ != root_path() {
                self.registry.lemma_not_root(from@, to@);
            }
        }
        self.registry.rekey(from, to);
        Ok(())
    }
}

} // verus!
