use vstd::prelude::*;
use vstd::string::StringExecFns;

use crate::attrs::Attrs;

verus! {

/// The inode number of the root directory.
pub const ROOT_INO: u64 = 1;

/// One entry of the registry: an inode number, the path it names and the
/// cached attributes of that path.
pub struct INode {
    pub ino: u64,
    pub path: String,
    pub attr: Attrs,
}

impl INode {
    pub fn duplicate(&self) -> (r: INode)
        ensures
            r.ino == self.ino,
            r.path@ == self.path@,
            r.attr == self.attr,
    {
        INode { ino: self.ino, path: self.path.clone(), attr: self.attr }
    }
}

/// The path of the root directory, `/`.
pub open spec fn root_path() -> Seq<char> {
    seq!['/']
}

/// The bidirectional map between inode numbers and paths.
///
/// Inode `k` lives in slot `k - 1`; a slot is emptied when its path is
/// removed and is never filled again, so inode numbers are issued in strictly
/// increasing order and never reused. The path direction is a search over the
/// same slots, so the two directions cannot disagree.
pub struct Registry {
    slots: Vec<Option<INode>>,
}

impl View for Registry {
    /// Each live inode number with its path and cached attributes.
    type V = Map<u64, (Seq<char>, Attrs)>;

    closed spec fn view(&self) -> Map<u64, (Seq<char>, Attrs)> {
        Map::new(
            |ino: u64| self.live_slot(ino as int - 1),
            |ino: u64|
                (
                    self.slots@[ino as int - 1].unwrap().path@,
                    self.slots@[ino as int - 1].unwrap().attr,
                ),
        )
    }
}

impl Registry {
    closed spec fn live_slot(&self, k: int) -> bool {
        0 <= k < self.slots@.len() && self.slots@[k] is Some
    }

    closed spec fn slot_path(&self, k: int) -> Seq<char> {
        self.slots@[k].unwrap().path@
    }

    /// The inode number that the next new path receives.
    pub closed spec fn next_ino(&self) -> u64 {
        (self.slots@.len() + 1) as u64
    }

    /// The registry's invariant: the root is present as `/`, every slot
    /// holds its own inode number, and no two live inodes share a path.
    pub closed spec fn wf(&self) -> bool {
        &&& self.slots@.len() >= 1
        &&& self.slots@.len() < u64::MAX
        &&& self.live_slot(0)
        &&& self.slot_path(0) == root_path()
        &&& forall|k: int|
            #![trigger self.slots@[k]]
            self.live_slot(k) ==> self.slots@[k].unwrap().ino == k + 1
        &&& forall|i: int, j: int|
            #![trigger self.slot_path(i), self.slot_path(j)]
            self.live_slot(i) && self.live_slot(j) && self.slot_path(i) == self.slot_path(j)
                ==> i == j
    }

    /// Whether some live inode names `p`.
    pub open spec fn knows_path(&self, p: Seq<char>) -> bool {
        exists|ino: u64| #[trigger] self@.contains_key(ino) && self@[ino].0 == p
    }

    /// The inode that names `p`, if any.
    pub open spec fn ino_of(&self, p: Seq<char>) -> Option<u64> {
        if self.knows_path(p) {
            Some(choose|ino: u64| #[trigger] self@.contains_key(ino) && self@[ino].0 == p)
        } else {
            None
        }
    }

    /// `after` is this registry once `p` was recorded with `attr` and `r`
    /// was returned: a known path keeps its inode, a new one takes the next
    /// number, and nothing changes once the numbers are used up.
    pub open spec fn interned(&self, after: Registry, p: Seq<char>, attr: Attrs, r: Option<u64>) -> bool {
        &&& after.wf()
        &&& match self.ino_of(p) {
            Some(i) => {
                &&& r == Some(i)
                &&& after@ == self@.insert(i, (p, attr))
                &&& after.next_ino() == self.next_ino()
            },
            None => if self.next_ino() < u64::MAX {
                &&& r == Some(self.next_ino())
                &&& !self@.contains_key(self.next_ino())
                &&& after@ == self@.insert(self.next_ino(), (p, attr))
                &&& after.next_ino() == self.next_ino() + 1
            } else {
                &&& r is None
                &&& after@ == self@
                &&& after.next_ino() == self.next_ino()
            },
        }
    }

    /// `after` is this registry once `p` was removed and `r` returned. The
    /// root is kept.
    pub open spec fn forgotten(&self, after: Registry, p: Seq<char>, r: Option<u64>) -> bool {
        &&& after.wf()
        &&& after.next_ino() == self.next_ino()
        &&& if self.ino_of(p) is Some && self.ino_of(p).unwrap() != ROOT_INO {
            &&& r == self.ino_of(p)
            &&& after@ == self@.remove(r.unwrap())
        } else {
            &&& r is None
            &&& after@ == self@
        }
    }

    /// `after` is this registry once the inode of `from` moved to `to` and
    /// `r` was returned. An inode that named `to` before is dropped; nothing
    /// changes when `from` is unknown or either path is the root's.
    pub open spec fn rekeyed(&self, after: Registry, from: Seq<char>, to: Seq<char>, r: Option<u64>) -> bool {
        &&& after.wf()
        &&& after.next_ino() == self.next_ino()
        &&& if self.ino_of(from) is Some && self.ino_of(from).unwrap() != ROOT_INO
            && self.ino_of(to) != Some(ROOT_INO) {
            let i = self.ino_of(from).unwrap();
            let kept = if self.ino_of(to) is Some && self.ino_of(to) != Some(i) {
                self@.remove(self.ino_of(to).unwrap())
            } else {
                self@
            };
            &&& r == Some(i)
            &&& after@ == kept.insert(i, (to, self@[i].1))
        } else {
            &&& r is None
            &&& after@ == self@
        }
    }

    /// When `p` is known, its inode is live and names `p`.
    pub proof fn lemma_ino_of_known(&self, p: Seq<char>)
        requires
            self.ino_of(p) is Some,
        ensures
            self@.contains_key(self.ino_of(p).unwrap()),
            self@[self.ino_of(p).unwrap()].0 == p,
    {
    }

    /// The inode that a removal of `p` drops: none for an unknown path or
    /// the root.
    pub open spec fn removal(&self, p: Seq<char>) -> Option<u64> {
        if self.ino_of(p) is Some && self.ino_of(p).unwrap() != ROOT_INO {
            self.ino_of(p)
        } else {
            None
        }
    }

    /// The inode that a move of `from` to `to` relocates, if it moves.
    pub open spec fn moved(&self, from: Seq<char>, to: Seq<char>) -> Option<u64> {
        if self.ino_of(from) is Some && self.ino_of(from).unwrap() != ROOT_INO && self.ino_of(to)
            != Some(ROOT_INO) {
            self.ino_of(from)
        } else {
            None
        }
    }

    /// Recording a path keeps every live inode on its path, never lowers
    /// the next inode number, and leaves the returned inode naming `p`.
    pub proof fn lemma_interned_keeps(&self, after: Registry, p: Seq<char>, attr: Attrs, r: Option<u64>)
        requires
            self.wf(),
            self.interned(after, p, attr, r),
        ensures
            forall|x: u64| #[trigger]
                self@.contains_key(x) ==> after@.contains_key(x) && after@[x].0 == self@[x].0,
            after.next_ino() >= self.next_ino(),
            after.next_ino() <= self.next_ino() + 1,
            r is Some ==> after@.contains_key(r.unwrap()) && after@[r.unwrap()] == (p, attr),
            r is None ==> after@ == self@ && self.next_ino() == u64::MAX,
            forall|x: u64|
                #![trigger after@.contains_key(x)]
                #![trigger after@[x]]
                after@.contains_key(x) && Some(x) != r ==> self@.contains_key(x) && after@[x]
                    == self@[x],
    {
        if self.ino_of(p) is Some {
            self.lemma_ino_of_known(p);
        }
    }

    /// After a move, the destination names the moved inode and the source
    /// names nothing.
    pub proof fn lemma_rekeyed_moves(&self, after: Registry, from: Seq<char>, to: Seq<char>, r: Option<u64>)
        requires
            self.wf(),
            self.rekeyed(after, from, to, r),
            r is Some,
        ensures
            after.ino_of(to) == r,
            from != to ==> after.ino_of(from) is None,
    {
        let i = r.unwrap();
        after.lemma_ino_of(i);
        self.lemma_ino_of_known(from);
        if self.ino_of(to) is Some {
            self.lemma_ino_of_known(to);
        }
        if from != to && after.knows_path(from) {
            let x = after.ino_of(from).unwrap();
            after.lemma_ino_of_known(from);
            assert(x != i);
            assert(self@.contains_key(x) && self@[x].0 == from);
            self.lemma_ino_of(x);
        }
    }

    /// Inode numbers are issued in strictly increasing order: a path that
    /// is new to `r0` receives an inode that no live inode of `r0` has, and
    /// a new path recorded later (from a registry whose next number is not
    /// below that of `r1`) receives a strictly larger one.
    pub proof fn lemma_issue_order(
        r0: Registry,
        r1: Registry,
        p: Seq<char>,
        a: Attrs,
        i: u64,
        r2: Registry,
        r3: Registry,
        q: Seq<char>,
        b: Attrs,
        j: u64,
    )
        requires
            r0.wf(),
            r2.wf(),
            r0.ino_of(p) is None,
            r0.interned(r1, p, a, Some(i)),
            r2.ino_of(q) is None,
            r2.interned(r3, q, b, Some(j)),
            r1.next_ino() <= r2.next_ino(),
        ensures
            !r0@.contains_key(i),
            !r2@.contains_key(j),
            i < j,
    {
    }

    /// The root is always live and names `/`.
    pub proof fn lemma_root(&self)
        requires
            self.wf(),
        ensures
            self@.contains_key(ROOT_INO),
            self@[ROOT_INO].0 == root_path(),
            self.ino_of(root_path()) == Some(ROOT_INO),
    {
        self.lemma_ino_of(ROOT_INO);
    }

    /// Away from the root, removing a known path drops its inode, and
    /// moving a known path moves its inode.
    pub proof fn lemma_not_root(&self, from: Seq<char>, to: Seq<char>)
        requires
            self.wf(),
            from != root_path(),
            to != root_path(),
        ensures
            self.removal(from) == self.ino_of(from),
            self.moved(from, to) == self.ino_of(from),
    {
        self.lemma_root();
        if self.ino_of(from) is Some {
            self.lemma_ino_of_known(from);
        }
        if self.ino_of(to) is Some {
            self.lemma_ino_of_known(to);
        }
    }

    /// Every live inode number is below the next one to be issued.
    pub proof fn lemma_below_next(&self, ino: u64)
        requires
            self.wf(),
            self@.contains_key(ino),
        ensures
            1 <= ino < self.next_ino(),
    {
    }

    /// Looking up the path of a live inode gives that inode back: the two
    /// directions of the registry agree.
    pub proof fn lemma_ino_of(&self, ino: u64)
        requires
            self.wf(),
            self@.contains_key(ino),
        ensures
            self.ino_of(self@[ino].0) == Some(ino),
    {
        let p = self@[ino].0;
        assert(self.knows_path(p));
        let other = self.ino_of(p).unwrap();
        assert(self@.contains_key(other) && self@[other].0 == p);
        assert(self.live_slot(other - 1) && self.slot_path(other - 1) == p);
        assert(self.live_slot(ino - 1) && self.slot_path(ino - 1) == p);
    }

    /// A registry that holds the root directory alone, with `root` as its
    /// attributes.
    pub fn new(root: Attrs) -> (r: Registry)
        ensures
            r.wf(),
            r@ == map![ROOT_INO => (root_path(), root)],
            r.next_ino() == 2,
    {
        let path = String::from_str("/");
        proof {
            reveal_strlit("/");
        }
        let mut slots: Vec<Option<INode>> = Vec::new();
        slots.push(Some(INode { ino: ROOT_INO, path, attr: root }));
        let r = Registry { slots };
        assert(r.slots@[0].unwrap().path@ == root_path());
        assert(r@.dom() =~= set![ROOT_INO]);
        assert(r@ =~= map![ROOT_INO => (root_path(), root)]);
        r
    }

    /// The inode number that the next new path receives.
    pub fn next_inode(&self) -> (r: u64)
        requires
            self.wf(),
        ensures
            r == self.next_ino(),
    {
        self.slots.len() as u64 + 1
    }

    /// The slot that holds `path`, if any.
    fn find_path(&self, path: &String) -> (r: Option<usize>)
        requires
            self.wf(),
        ensures
            match r {
                Some(k) => self.live_slot(k as int) && self.slot_path(k as int) == path@,
                None => forall|k: int| self.live_slot(k) ==> self.slot_path(k) != path@,
            },
    {
        let mut k: usize = 0;
        while k < self.slots.len()
            invariant
                k <= self.slots@.len(),
                forall|j: int| 0 <= j < k && self.live_slot(j) ==> self.slot_path(j) != path@,
            decreases self.slots@.len() - k,
        {
            match &self.slots[k] {
                Some(node) => {
                    if node.path == *path {
                        return Some(k);
                    }
                },
                None => {},
            }
            k += 1;
        }
        None
    }

    /// A copy of the record of `ino`, if it is live.
    pub fn lookup_by_ino(&self, ino: u64) -> (r: Option<INode>)
        requires
            self.wf(),
        ensures
            match r {
                Some(node) => self@.contains_key(ino) && node.ino == ino && node.path@
                    == self@[ino].0 && node.attr == self@[ino].1,
                None => !self@.contains_key(ino),
            },
    {
        if ino == 0 || ino > self.slots.len() as u64 {
            return None;
        }
        let k = (ino - 1) as usize;
        match &self.slots[k] {
            Some(node) => Some(node.duplicate()),
            None => None,
        }
    }

    /// The inode that names `path`, if any.
    pub fn lookup_by_path(&self, path: &String) -> (r: Option<u64>)
        requires
            self.wf(),
        ensures
            r == self.ino_of(path@),
    {
        match self.find_path(path) {
            Some(k) => {
                let ino = k as u64 + 1;
                proof {
                    self.lemma_ino_of(ino);
                }
                Some(ino)
            },
            None => {
                assert(!self.knows_path(path@));
                None
            },
        }
    }

    /// The attributes stored in live slot `k`.
    fn slot_attr(&self, k: usize) -> (r: Attrs)
        requires
            self.live_slot(k as int),
        ensures
            r == self.slots@[k as int].unwrap().attr,
    {
        match &self.slots[k] {
            Some(node) => node.attr,
            None => self.slots[0].as_ref().unwrap().attr,
        }
    }

    /// Records `path` with the attributes `attr`. A known path keeps its inode
    /// and has its attributes replaced; a new one receives the next inode
    /// number. `None` only when the inode numbers are used up.
    pub fn intern(&mut self, path: &String, attr: Attrs) -> (r: Option<u64>)
        requires
            old(self).wf(),
        ensures
            old(self).interned(*final(self), path@, attr, r),
    {
        match self.find_path(path) {
            Some(k) => {
                let ino = k as u64 + 1;
                proof {
                    self.lemma_ino_of(ino);
                }
                let ghost before = *self;
                self.slots.set(k, Some(INode { ino, path: path.clone(), attr }));
                proof {
                    assert(self@ =~= before@.insert(ino, (path@, attr)));
                    assert forall|i: int, j: int|
                        self.live_slot(i) && self.live_slot(j) && #[trigger] self.slot_path(i)
                            == #[trigger] self.slot_path(j) implies i == j by {
                        if i != k && j != k {
                            assert(before.slot_path(i) == before.slot_path(j));
                        } else if i == k && j != k {
                            assert(before.slot_path(k as int) == before.slot_path(j));
                        } else if j == k && i != k {
                            assert(before.slot_path(k as int) == before.slot_path(i));
                        }
                    }
                }
                Some(ino)
            },
            None => {
                assert(!self.knows_path(path@));
                let len = self.slots.len();
                if len as u64 >= u64::MAX - 1 {
                    return None;
                }
                let ino = len as u64 + 1;
                let ghost before = *self;
                assert(!before@.contains_key(ino));
                self.slots.push(Some(INode { ino, path: path.clone(), attr }));
                proof {
                    assert(self@ =~= before@.insert(ino, (path@, attr)));
                    assert forall|i: int, j: int|
                        self.live_slot(i) && self.live_slot(j) && #[trigger] self.slot_path(i)
                            == #[trigger] self.slot_path(j) implies i == j by {
                        if i != len && j != len {
                            assert(before.slot_path(i) == before.slot_path(j));
                        } else if i == len && j != len {
                            assert(before.live_slot(j));
                        } else if j == len && i != len {
                            assert(before.live_slot(i));
                        }
                    }
                }
                Some(ino)
            },
        }
    }

    /// Replaces the cached attributes of `ino`; `false` if it is not live.
    pub fn update_attrs(&mut self, ino: u64, attr: Attrs) -> (r: bool)
        requires
            old(self).wf(),
        ensures
            final(self).wf(),
            final(self).next_ino() == old(self).next_ino(),
            r == old(self)@.contains_key(ino),
            r ==> final(self)@ == old(self)@.insert(ino, (old(self)@[ino].0, attr)),
            !r ==> final(self)@ == old(self)@,
    {
        if ino == 0 || ino > self.slots.len() as u64 {
            return false;
        }
        let k = (ino - 1) as usize;
        let node = match &self.slots[k] {
            Some(node) => INode { ino, path: node.path.clone(), attr },
            None => {
                return false;
            },
        };
        let ghost before = *self;
        self.slots.set(k, Some(node));
        proof {
            assert(self@ =~= before@.insert(ino, (before@[ino].0, attr)));
            assert forall|i: int, j: int|
                self.live_slot(i) && self.live_slot(j) && #[trigger] self.slot_path(i)
                    == #[trigger] self.slot_path(j) implies i == j by {
                assert(before.slot_path(i) == self.slot_path(i));
                assert(before.slot_path(j) == self.slot_path(j));
            }
        }
        true
    }

    /// Removes `path` from both directions. The root is never removed.
    /// Returns the inode that was removed.
    pub fn forget(&mut self, path: &String) -> (r: Option<u64>)
        requires
            old(self).wf(),
        ensures
            old(self).forgotten(*final(self), path@, r),
            final(self).ino_of(path@) is None || path@ == root_path(),
    {
        match self.find_path(path) {
            Some(k) => {
                let ino = k as u64 + 1;
                proof {
                    self.lemma_ino_of(ino);
                }
                if k == 0 {
                    return None;
                }
                let ghost before = *self;
                self.slots.set(k, None);
                proof {
                    assert(self@ =~= before@.remove(ino));
                    assert forall|i: int, j: int|
                        self.live_slot(i) && self.live_slot(j) && #[trigger] self.slot_path(i)
                            == #[trigger] self.slot_path(j) implies i == j by {
                        assert(before.slot_path(i) == self.slot_path(i));
                        assert(before.slot_path(j) == self.slot_path(j));
                    }
                    if self.knows_path(path@) {
                        let o = self.ino_of(path@).unwrap();
                        assert(before.slot_path(o - 1) == before.slot_path(k as int));
                    }
                }
                Some(ino)
            },
            None => {
                assert(!self.knows_path(path@));
                None
            },
        }
    }

    /// Moves the inode of `from` to the path `to`, in both directions. An
    /// inode that named `to` before is dropped, as the remote store replaced
    /// it. Nothing changes when `from` is unknown or either path is the
    /// root's. Returns the inode that moved. Cached descendants of a moved
    /// directory keep their old paths; a later lookup under the new path
    /// records them afresh.
    pub fn rekey(&mut self, from: &String, to: &String) -> (r: Option<u64>)
        requires
            old(self).wf(),
        ensures
            old(self).rekeyed(*final(self), from@, to@, r),
            r is Some ==> final(self).ino_of(to@) == r,
            r is Some && from@ != to@ ==> final(self).ino_of(from@) is None,
    {
        let kf = match self.find_path(from) {
            Some(k) => k,
            None => {
                assert(!self.knows_path(from@));
                return None;
            },
        };
        let ino = kf as u64 + 1;
        proof {
            self.lemma_ino_of(ino);
        }
        if kf == 0 {
            return None;
        }
        let ghost before = *self;
        let ghost kept = if before.ino_of(to@) is Some && before.ino_of(to@) != Some(ino) {
            before@.remove(before.ino_of(to@).unwrap())
        } else {
            before@
        };
        match self.find_path(to) {
            Some(kt) => {
                proof {
                    self.lemma_ino_of((kt + 1) as u64);
                }
                if kt == 0 {
                    return None;
                }
                if kt != kf {
                    self.slots.set(kt, None);
                }
            },
            None => {
                assert(!self.knows_path(to@));
            },
        }
        let attr = self.slot_attr(kf);
        let ghost mid = *self;
        assert(mid@ =~= kept);
        self.slots.set(kf, Some(INode { ino, path: to.clone(), attr }));
        proof {
            assert(self@ =~= kept.insert(ino, (to@, before@[ino].1)));
            assert forall|i: int, j: int|
                self.live_slot(i) && self.live_slot(j) && #[trigger] self.slot_path(i)
                    == #[trigger] self.slot_path(j) implies i == j by {
                if i != kf && j != kf {
                    assert(kept.contains_key((i + 1) as u64) && kept.contains_key((j + 1) as u64));
                    assert(before.live_slot(i) && before.live_slot(j));
                    assert(before.slot_path(i) == before.slot_path(j));
                } else if i == kf && j != kf {
                    assert(mid.live_slot(j) && mid.slot_path(j) == to@);
                    assert(kept.contains_key((j + 1) as u64));
                    before.lemma_ino_of((j + 1) as u64);
                } else if j == kf && i != kf {
                    assert(mid.live_slot(i) && mid.slot_path(i) == to@);
                    assert(kept.contains_key((i + 1) as u64));
                    before.lemma_ino_of((i + 1) as u64);
                }
            }
            before.lemma_rekeyed_moves(*self, from@, to@, Some(ino));
        }
        Some(ino)
    }
}

} // verus!
