//! What a disk keeps when the power fails: the contents of a file as of its last synchronization,
//! under the names that its directory had as of its own. Everything else is lost.
use crate::device::path::{canonical, copy_bytes, names, same_bytes, DevicePath};
use crate::device::{FileId, IoOperation};
use crate::table::{Key, Table};
use vstd::prelude::*;

verus! {

/// What an operation changes.
#[derive(Debug, PartialEq, Eq)]
pub enum Change {
    Open(Vec<u8>),
    Directory(Vec<u8>),
    SyncFile(FileId),
    SyncDirectory(Vec<u8>),
    Rename(Vec<u8>, Vec<u8>),
    Remove(Vec<u8>),
    Other,
}

impl Change {
    pub fn from_operation(operation: &IoOperation) -> (r: Change)
        ensures
            match *operation {
                IoOperation::Open { path, .. } => r matches Change::Open(p) && p@ == path@,
                IoOperation::CreateDirectory(path) => r matches Change::Directory(p) && p@ == path@,
                IoOperation::SyncFile { file, .. } => r == Change::SyncFile(file),
                IoOperation::SyncDirectory(path) => r matches Change::SyncDirectory(p) && p@
                    == path@,
                IoOperation::Rename { source, destination } => r matches Change::Rename(s, d) && s@
                    == source@ && d@ == destination@,
                IoOperation::RemoveFile(path) => r matches Change::Remove(p) && p@ == path@,
                _ => r == Change::Other,
            },
    {
        match operation {
            IoOperation::Open { path, .. } => Change::Open(copy_bytes(path.as_slice())),
            IoOperation::CreateDirectory(path) => Change::Directory(copy_bytes(path.as_slice())),
            IoOperation::SyncFile { file, .. } => Change::SyncFile(*file),
            IoOperation::SyncDirectory(path) => Change::SyncDirectory(
                copy_bytes(path.as_slice()),
            ),
            IoOperation::Rename { source, destination } => Change::Rename(
                copy_bytes(source.as_slice()),
                copy_bytes(destination.as_slice()),
            ),
            IoOperation::RemoveFile(path) => Change::Remove(copy_bytes(path.as_slice())),
            _ => Change::Other,
        }
    }
}

/// The names of a path. The empty path is the root.
pub open spec fn place(path: Seq<u8>) -> Seq<Seq<u8>> {
    if path.len() == 0 {
        Seq::empty()
    } else {
        names(path)
    }
}

pub open spec fn is_place(path: Seq<u8>) -> bool {
    path.len() == 0 || canonical(path)
}

fn find_place(path: &[u8]) -> (r: DevicePath)
    requires
        is_place(path@),
    ensures
        r@ == place(path@),
{
    if path.len() == 0 {
        let root = DevicePath::root();
        assert(root@ =~= Seq::<Seq<u8>>::empty());
        return root;
    }
    match DevicePath::parse(path) {
        Some(parsed) => parsed,
        None => DevicePath::root(),
    }
}

/// A name in a directory.
pub struct Name(pub Vec<u8>);

impl Key for Name {
    type Model = Seq<u8>;

    open spec fn model(&self) -> Seq<u8> {
        self.0@
    }

    fn same(&self, other: &Name) -> (r: bool) {
        same_bytes(self.0.as_slice(), other.0.as_slice())
    }
}

/// A file or a directory, with what is synchronized of it.
pub struct Node {
    pub directory: bool,
    pub data: Vec<u8>,
    pub children: Table<Name, usize>,
}

#[verifier::ext_equal]
pub struct NodeModel {
    pub directory: bool,
    pub data: Seq<u8>,
    pub children: Map<Seq<u8>, usize>,
}

impl Node {
    pub open spec fn view(self) -> NodeModel {
        NodeModel { directory: self.directory, data: self.data@, children: self.children@ }
    }
}

/// What the disk holds and keeps.
#[verifier::ext_equal]
pub struct DiskModel {
    /// What is under each path now.
    pub paths: Map<Seq<Seq<u8>>, usize>,
    /// The path under which each open file was opened.
    pub handles: Map<u64, Seq<Seq<u8>>>,
    pub nodes: Seq<NodeModel>,
}

pub open spec fn root() -> Seq<Seq<u8>> {
    Seq::empty()
}

impl DiskModel {
    /// Everything that a path or a directory names is there.
    pub open spec fn wf(self) -> bool {
        &&& self.nodes.len() <= usize::MAX
        &&& forall|p: Seq<Seq<u8>>| #[trigger]
            self.paths.dom().contains(p) ==> self.paths[p] < self.nodes.len()
        &&& forall|n: int, name: Seq<u8>|
            0 <= n < self.nodes.len() && #[trigger] self.nodes[n].children.dom().contains(name)
                ==> self.nodes[n].children[name] < self.nodes.len()
    }

    /// With something under `p`: what was there, or something new and empty.
    pub open spec fn ensured(self, p: Seq<Seq<u8>>, directory: bool) -> DiskModel {
        if self.paths.dom().contains(p) {
            self
        } else {
            DiskModel {
                paths: self.paths.insert(p, self.nodes.len() as usize),
                nodes: self.nodes.push(
                    NodeModel { directory, data: Seq::empty(), children: Map::empty() },
                ),
                ..self
            }
        }
    }

    /// What lies directly below `p` now.
    pub open spec fn below(self, p: Seq<Seq<u8>>) -> Map<Seq<u8>, usize> {
        Map::new(
            |name: Seq<u8>| self.paths.dom().contains(p.push(name)),
            |name: Seq<u8>| self.paths[p.push(name)],
        )
    }

    /// With the contents of what is under `p` synchronized.
    pub open spec fn with_data(self, p: Seq<Seq<u8>>, data: Seq<u8>) -> DiskModel {
        let id = self.paths[p] as int;
        DiskModel { nodes: self.nodes.update(id, NodeModel { data, ..self.nodes[id] }), ..self }
    }

    /// With the names below `p` synchronized.
    pub open spec fn with_names(self, p: Seq<Seq<u8>>) -> DiskModel {
        let id = self.paths[p] as int;
        DiskModel {
            nodes: self.nodes.update(
                id,
                NodeModel { children: self.below(p), ..self.nodes[id] },
            ),
            ..self
        }
    }

    /// Whether the change can have been made: what it names is there.
    pub open spec fn admits(self, change: Change) -> bool {
        let s = self.ensured(root(), true);
        &&& self.nodes.len() + 2 <= usize::MAX
        &&& match change {
            Change::Open(path) => is_place(path@),
            Change::Directory(path) => is_place(path@),
            Change::SyncFile(file) => s.handles.dom().contains(file.slot) && s.paths.dom().contains(
                s.handles[file.slot],
            ),
            Change::SyncDirectory(path) => is_place(path@) && s.paths.dom().contains(place(path@)),
            Change::Rename(source, destination) => is_place(source@) && is_place(destination@)
                && s.paths.dom().contains(place(source@)),
            Change::Remove(path) => is_place(path@) && s.paths.dom().contains(place(path@)),
            Change::Other => true,
        }
    }

    /// What a change makes of the disk. `opened` is the file that an open gave, and `contents` what
    /// a file held when it was synchronized.
    pub open spec fn applied(self, change: Change, opened: FileId, contents: Seq<u8>) -> DiskModel {
        let s = self.ensured(root(), true);
        match change {
            Change::Open(path) => {
                let s = s.ensured(place(path@), false);
                DiskModel { handles: s.handles.insert(opened.slot, place(path@)), ..s }
            },
            Change::Directory(path) => s.ensured(place(path@), true),
            Change::SyncFile(file) => s.with_data(s.handles[file.slot], contents),
            Change::SyncDirectory(path) => s.with_names(place(path@)),
            Change::Rename(source, destination) => DiskModel {
                paths: s.paths.remove(place(source@)).insert(
                    place(destination@),
                    s.paths[place(source@)],
                ),
                ..s
            },
            Change::Remove(path) => DiskModel { paths: s.paths.remove(place(path@)), ..s },
            Change::Other => s,
        }
    }

    /// What is reached from `id` by these names, by the names that are synchronized.
    pub open spec fn reached(self, id: usize, names: Seq<Seq<u8>>) -> Option<usize>
        decreases names.len(),
    {
        if names.len() == 0 {
            Some(id)
        } else if self.nodes[id as int].directory && self.nodes[id as int].children.dom().contains(
            names[0],
        ) {
            self.reached(self.nodes[id as int].children[names[0]], names.drop_first())
        } else {
            None
        }
    }

    /// What is under these names after the power failed.
    pub open spec fn kept(self, names: Seq<Seq<u8>>) -> Option<NodeModel> {
        if self.paths.dom().contains(root()) {
            match self.reached(self.paths[root()], names) {
                Some(id) => Some(self.nodes[id as int]),
                None => None,
            }
        } else {
            None
        }
    }
}

pub struct DurableModel {
    paths: Table<DevicePath, usize>,
    handles: Table<u64, DevicePath>,
    nodes: Vec<Node>,
}

impl DurableModel {
    pub closed spec fn view(self) -> DiskModel {
        DiskModel {
            paths: self.paths@,
            handles: self.handles@.map_values(|p: DevicePath| p@),
            nodes: self.nodes@.map_values(|node: Node| node@),
        }
    }

    pub closed spec fn wf(self) -> bool {
        &&& self.paths.wf()
        &&& self.handles.wf()
        &&& forall|i: int| 0 <= i < self.nodes@.len() ==> (#[trigger] self.nodes@[i]).children.wf()
        &&& self@.wf()
    }

    pub fn new() -> (r: DurableModel)
        ensures
            r.wf(),
            r@ == (DiskModel { paths: Map::empty(), handles: Map::empty(), nodes: Seq::empty() }),
    {
        let r = DurableModel { paths: Table::new(), handles: Table::new(), nodes: Vec::new() };
        assert(r@.handles =~= Map::<u64, Seq<Seq<u8>>>::empty());
        assert(r@.nodes =~= Seq::<NodeModel>::empty());
        r
    }

    /// Makes sure that there is something under `path`.
    fn ensure(&mut self, path: &DevicePath, directory: bool) -> (r: usize)
        requires
            old(self).wf(),
            old(self)@.nodes.len() < usize::MAX,
        ensures
            final(self).wf(),
            final(self)@ == old(self)@.ensured(path@, directory),
            r == final(self)@.paths[path@],
            final(self)@.paths.dom().contains(path@),
    {
        if let Some(id) = self.paths.get(path) {
            return *id;
        }
        let id = self.nodes.len();
        let node = Node { directory, data: Vec::new(), children: Table::new() };
        let ghost before = self@;
        let ghost nodes = self.nodes@;
        self.nodes.push(node);
        let _ = self.paths.insert(path.copy(), id);
        proof {
            assert(node@.data =~= Seq::<u8>::empty());
            assert(self@.nodes =~= before.nodes.push(node@));
            assert(self@.handles =~= before.handles);
            assert(self@.paths =~= before.paths.insert(path@, id));
            assert(self@ =~= before.ensured(path@, directory));
            assert forall|i: int| 0 <= i < self.nodes@.len() implies (
            #[trigger] self.nodes@[i]).children.wf() by {
                if i < nodes.len() {
                    assert(self.nodes@[i] == nodes[i]);
                }
            }
            before.lemma_ensured(path@, directory);
        }
        id
    }

    /// Takes over what a completed operation changed.
    pub fn apply(&mut self, change: Change, opened: FileId, contents: Vec<u8>)
        requires
            old(self).wf(),
            old(self)@.admits(change),
        ensures
            final(self).wf(),
            final(self)@ == old(self)@.applied(change, opened, contents@),
    {
        let top = DevicePath::root();
        assert(top@ =~= root());
        let _ = self.ensure(&top, true);
        let ghost s = self@;
        match change {
            Change::Open(path) => {
                let path = find_place(path.as_slice());
                let _ = self.ensure(&path, false);
                let ghost mid = self@;
                let _ = self.handles.insert(opened.slot, path);
                assert(self@.handles =~= mid.handles.insert(opened.slot, path@));
                assert(self@.nodes =~= mid.nodes);
            },
            Change::Directory(path) => {
                let path = find_place(path.as_slice());
                let _ = self.ensure(&path, true);
            },
            Change::SyncFile(file) => {
                let id = self.file_of(file);
                let ghost nodes = self.nodes@;
                let node = &mut self.nodes[id];
                node.data = contents;
                proof {
                    assert(self@.nodes =~= s.with_data(
                        s.handles[file.slot],
                        contents@,
                    ).nodes) by {
                        assert(self.nodes@[id as int]@ == (NodeModel {
                            data: contents@,
                            ..nodes[id as int]@
                        }));
                    }
                    assert(self@.handles =~= s.handles);
                    s.lemma_with_data(s.handles[file.slot], contents@);
                }
            },
            Change::SyncDirectory(path) => {
                let path = find_place(path.as_slice());
                self.sync_names(&path);
            },
            Change::Rename(source, destination) => {
                let source = find_place(source.as_slice());
                let destination = find_place(destination.as_slice());
                if let Some(id) = self.paths.remove(&source) {
                    let _ = self.paths.insert(destination, id);
                }
                assert(self@.nodes =~= s.nodes);
                assert(self@.handles =~= s.handles);
            },
            Change::Remove(path) => {
                let path = find_place(path.as_slice());
                let _ = self.paths.remove(&path);
                assert(self@.nodes =~= s.nodes);
                assert(self@.handles =~= s.handles);
            },
            Change::Other => {},
        }
    }

    /// What the path under which a file was opened holds now.
    fn file_of(&self, file: FileId) -> (r: usize)
        requires
            self.wf(),
            self@.handles.dom().contains(file.slot),
            self@.paths.dom().contains(self@.handles[file.slot]),
        ensures
            r == self@.paths[self@.handles[file.slot]],
            r < self.nodes@.len(),
    {
        assert(self.handles@.dom().contains(file.slot));
        match self.handles.get(&file.slot) {
            Some(path) => match self.paths.get(path) {
                Some(id) => *id,
                None => 0,
            },
            None => 0,
        }
    }

    /// Synchronizes the names below `path`.
    fn sync_names(&mut self, path: &DevicePath)
        requires
            old(self).wf(),
            old(self)@.paths.dom().contains(path@),
        ensures
            final(self).wf(),
            final(self)@ == old(self)@.with_names(path@),
    {
        let id = match self.paths.get(path) {
            Some(id) => *id,
            None => 0,
        };
        let mut children: Table<Name, usize> = Table::new();
        let mut i: usize = 0;
        let ghost items = self.paths.items();
        while i < self.paths.len()
            invariant
                self.wf(),
                *self == *old(self),
                items == self.paths.items(),
                i <= items.len(),
                children.wf(),
                forall|name: Seq<u8>| #[trigger]
                    children@.dom().contains(name) <==> exists|j: int|
                        0 <= j < i && #[trigger] items[j].0@ == path@.push(name),
                forall|name: Seq<u8>| #[trigger]
                    children@.dom().contains(name) ==> self.paths@.dom().contains(path@.push(name))
                        && children@[name] == self.paths@[path@.push(name)],
            decreases items.len() - i,
        {
            let (at, node) = self.paths.at(i);
            let ghost before = children@;
            if at.is_child_of(path) {
                let name = at.name();
                let ghost key = name@;
                proof {
                    self.paths.lemma_item(i as int);
                    assert(at@ =~= path@.push(key));
                }
                let _ = children.insert(Name(name), *node);
                assert forall|n: Seq<u8>| #[trigger] children@.dom().contains(n) <==> exists|j: int|
                    0 <= j < i + 1 && #[trigger] items[j].0@ == path@.push(n) by {
                    if n == key {
                        assert(items[i as int].0@ == path@.push(n));
                    } else {
                        assert(path@.push(n).last() == n);
                        assert(path@.push(key).last() == key);
                        if before.dom().contains(n) {
                            let j = choose|j: int|
                                0 <= j < i && #[trigger] items[j].0@ == path@.push(n);
                            assert(items[j].0@ == path@.push(n));
                        }
                        if exists|j: int| 0 <= j < i + 1 && #[trigger] items[j].0@ == path@.push(n) {
                            let j = choose|j: int|
                                0 <= j < i + 1 && #[trigger] items[j].0@ == path@.push(n);
                            assert(j != i);
                            assert(items[j].0@ == path@.push(n));
                        }
                    }
                }
            } else {
                assert forall|n: Seq<u8>| #[trigger] children@.dom().contains(n) <==> exists|j: int|
                    0 <= j < i + 1 && #[trigger] items[j].0@ == path@.push(n) by {
                    assert(path@.push(n).drop_last() =~= path@);
                    if before.dom().contains(n) {
                        let j = choose|j: int| 0 <= j < i && #[trigger] items[j].0@ == path@.push(n);
                        assert(items[j].0@ == path@.push(n));
                    }
                    if exists|j: int| 0 <= j < i + 1 && #[trigger] items[j].0@ == path@.push(n) {
                        let j = choose|j: int|
                            0 <= j < i + 1 && #[trigger] items[j].0@ == path@.push(n);
                        assert(j != i);
                        assert(items[j].0@ == path@.push(n));
                    }
                }
            }
            i += 1;
        }
        let ghost s = self@;
        let ghost nodes = self.nodes@;
        proof {
            assert forall|name: Seq<u8>| children@.dom().contains(name) <==> s.below(
                path@,
            ).dom().contains(name) by {
                if s.paths.dom().contains(path@.push(name)) {
                    self.paths.lemma_key(path@.push(name));
                    let j = self.paths.place(path@.push(name));
                    assert(items[j].0@ == path@.push(name));
                }
            }
            assert(children@ =~= s.below(path@));
        }
        let node = &mut self.nodes[id];
        node.children = children;
        proof {
            assert(self.nodes@[id as int]@ == (NodeModel {
                children: s.below(path@),
                ..nodes[id as int]@
            }));
            assert(self@.nodes =~= s.with_names(path@).nodes);
            assert(self@.handles =~= s.handles);
            s.lemma_with_names(path@);
        }
    }

    /// What is under `path` after the power failed: a directory, or a file with its contents.
    pub fn after_power_failure(&self, path: &[u8]) -> (r: Option<Kept>)
        requires
            self.wf(),
            is_place(path@),
        ensures
            match (r, self@.kept(place(path@))) {
                (Some(Kept::Directory), Some(node)) => node.directory,
                (Some(Kept::File(data)), Some(node)) => !node.directory && data@ == node.data,
                (None, None) => true,
                _ => false,
            },
    {
        let way = find_place(path);
        let top = DevicePath::root();
        assert(top@ =~= root());
        let mut id = match self.paths.get(&top) {
            Some(id) => *id,
            None => {
                return None;
            },
        };
        let mut i: usize = 0;
        assert(way@.skip(0) =~= way@);
        while i < way.len()
            invariant
                self.wf(),
                i <= way@.len(),
                way@ == place(path@),
                id < self.nodes@.len(),
                self@.paths.dom().contains(root()),
                self@.reached(self@.paths[root()], way@) == self@.reached(
                    id,
                    way@.skip(i as int),
                ),
            decreases way@.len() - i,
        {
            assert(way@.skip(i as int).drop_first() =~= way@.skip(i + 1));
            assert(way@.skip(i as int)[0] == way@[i as int]);
            assert(self@.nodes[id as int] == self.nodes@[id as int]@);
            let node = &self.nodes[id];
            if !node.directory {
                return None;
            }
            let name = Name(copy_bytes(way.at(i).as_slice()));
            match node.children.get(&name) {
                Some(child) => {
                    id = *child;
                },
                None => {
                    return None;
                },
            }
            i += 1;
        }
        assert(way@.skip(i as int) =~= Seq::<Seq<u8>>::empty());
        assert(self@.nodes[id as int] == self.nodes@[id as int]@);
        let node = &self.nodes[id];
        if node.directory {
            Some(Kept::Directory)
        } else {
            Some(Kept::File(copy_bytes(node.data.as_slice())))
        }
    }
}

/// What a path holds after the power failed.
#[derive(Debug, PartialEq, Eq)]
pub enum Kept {
    Directory,
    File(Vec<u8>),
}

impl DiskModel {
    proof fn lemma_ensured(self, p: Seq<Seq<u8>>, directory: bool)
        requires
            self.wf(),
            self.nodes.len() < usize::MAX,
        ensures
            self.ensured(p, directory).wf(),
    {
        let after = self.ensured(p, directory);
        if !self.paths.dom().contains(p) {
            assert forall|n: int, name: Seq<u8>|
                0 <= n < after.nodes.len() && #[trigger] after.nodes[n].children.dom().contains(
                    name,
                ) implies after.nodes[n].children[name] < after.nodes.len() by {
                if n < self.nodes.len() {
                    assert(self.nodes[n].children.dom().contains(name));
                }
            }
        }
    }

    proof fn lemma_with_data(self, p: Seq<Seq<u8>>, data: Seq<u8>)
        requires
            self.wf(),
            self.paths.dom().contains(p),
        ensures
            self.with_data(p, data).wf(),
    {
        let after = self.with_data(p, data);
        assert forall|n: int, name: Seq<u8>|
            0 <= n < after.nodes.len() && #[trigger] after.nodes[n].children.dom().contains(
                name,
            ) implies after.nodes[n].children[name] < after.nodes.len() by {
            assert(self.nodes[n].children.dom().contains(name));
        }
    }

    proof fn lemma_with_names(self, p: Seq<Seq<u8>>)
        requires
            self.wf(),
            self.paths.dom().contains(p),
        ensures
            self.with_names(p).wf(),
    {
        let after = self.with_names(p);
        assert forall|n: int, name: Seq<u8>|
            0 <= n < after.nodes.len() && #[trigger] after.nodes[n].children.dom().contains(
                name,
            ) implies after.nodes[n].children[name] < after.nodes.len() by {
            if n == self.paths[p] {
                assert(self.paths.dom().contains(p.push(name)));
            } else {
                assert(self.nodes[n].children.dom().contains(name));
            }
        }
    }

    proof fn lemma_reached_same(self, after: DiskModel, id: usize, names: Seq<Seq<u8>>)
        requires
            self.wf(),
            id < self.nodes.len() <= after.nodes.len(),
            forall|n: int| 0 <= n < self.nodes.len() ==> #[trigger] after.nodes[n] == self.nodes[n],
        ensures
            after.reached(id, names) == self.reached(id, names),
            self.reached(id, names) matches Some(end) ==> end < self.nodes.len(),
        decreases names.len(),
    {
        if names.len() > 0 {
            assert(after.nodes[id as int] == self.nodes[id as int]);
            if self.nodes[id as int].directory && self.nodes[id as int].children.dom().contains(
                names[0],
            ) {
                self.lemma_reached_same(
                    after,
                    self.nodes[id as int].children[names[0]],
                    names.drop_first(),
                );
            }
        }
    }
}

/// Only a synchronization reaches the disk: whatever else is done, and even a rename or a removal,
/// a power failure leaves what it would have left before.
pub proof fn law_only_synchronized_is_kept(
    disk: DiskModel,
    change: Change,
    opened: FileId,
    contents: Seq<u8>,
    names: Seq<Seq<u8>>,
)
    requires
        disk.wf(),
        disk.admits(change),
        disk.paths.dom().contains(root()),
        !(change is SyncFile),
        !(change is SyncDirectory),
        change matches Change::Rename(source, destination) ==> place(source@) != root() && place(
            destination@,
        ) != root(),
        change matches Change::Remove(path) ==> place(path@) != root(),
    ensures
        disk.applied(change, opened, contents).kept(names) == disk.kept(names),
{
    let after = disk.applied(change, opened, contents);
    assert(disk.ensured(root(), true) == disk);
    assert(after.paths.dom().contains(root()) && after.paths[root()] == disk.paths[root()]);
    disk.lemma_reached_same(after, disk.paths[root()], names);
}

/// A file that was synchronized has the contents that it had then.
pub proof fn law_synchronized_contents_are_kept(
    disk: DiskModel,
    file: FileId,
    opened: FileId,
    contents: Seq<u8>,
)
    requires
        disk.wf(),
        disk.paths.dom().contains(root()),
        disk.admits(Change::SyncFile(file)),
    ensures
        ({
            let after = disk.applied(Change::SyncFile(file), opened, contents);
            after.nodes[disk.paths[disk.handles[file.slot]] as int].data == contents
        }),
{
    assert(disk.ensured(root(), true) == disk);
}

/// What a change does to the paths: a file or a directory that is made is there, once; a rename moves
/// what was under one path to the other; what is removed is there no more. No other path changes, and
/// nothing that was synchronised does.
pub proof fn law_changes_of_paths(
    disk: DiskModel,
    change: Change,
    opened: FileId,
    contents: Seq<u8>,
    other: Seq<Seq<u8>>,
)
    requires
        disk.wf(),
        disk.admits(change),
        disk.paths.dom().contains(root()),
    ensures
        ({
            let after = disk.applied(change, opened, contents);
            &&& change matches Change::Open(path) ==> {
                &&& after.paths.dom().contains(place(path@))
                &&& after.handles == disk.handles.insert(opened.slot, place(path@))
                &&& disk.paths.dom().contains(place(path@)) ==> after.paths == disk.paths && after.nodes
                    == disk.nodes
                &&& !disk.paths.dom().contains(place(path@)) ==> {
                    let node = after.nodes[after.paths[place(path@)] as int];
                    &&& !node.directory
                    &&& node.data.len() == 0
                    &&& after.nodes.len() == disk.nodes.len() + 1
                    &&& after.paths[place(path@)] == disk.nodes.len()
                }
                &&& other != place(path@) ==> after.paths.dom().contains(other)
                    == disk.paths.dom().contains(other)
            }
            &&& change matches Change::Directory(path) ==> {
                &&& after.paths.dom().contains(place(path@))
                &&& disk.paths.dom().contains(place(path@)) ==> after == disk
                &&& !disk.paths.dom().contains(place(path@))
                    ==> after.nodes[after.paths[place(path@)] as int].directory
                &&& after.handles == disk.handles
            }
            &&& change matches Change::Rename(source, destination) ==> {
                &&& after.paths.dom().contains(place(destination@))
                &&& after.paths[place(destination@)] == disk.paths[place(source@)]
                &&& place(source@) != place(destination@) ==> !after.paths.dom().contains(place(source@))
                &&& other != place(source@) && other != place(destination@)
                    ==> after.paths.dom().contains(other) == disk.paths.dom().contains(other)
                &&& after.nodes == disk.nodes
                &&& after.handles == disk.handles
            }
            &&& change matches Change::Remove(path) ==> {
                &&& !after.paths.dom().contains(place(path@))
                &&& other != place(path@) ==> after.paths.dom().contains(other)
                    == disk.paths.dom().contains(other)
                &&& after.nodes == disk.nodes
                &&& after.handles == disk.handles
            }
            &&& change is Other ==> after == disk
            &&& change is SyncFile || change is SyncDirectory ==> after.paths == disk.paths
                && after.handles == disk.handles
        }),
{
    assert(disk.ensured(root(), true) == disk);
}

/// A directory that is synchronised keeps exactly the names that lie in it now, each with what it leads
/// to; its contents, and every other node, stay as they were.
pub proof fn law_synchronized_names_are_kept(
    disk: DiskModel,
    path: Vec<u8>,
    opened: FileId,
    contents: Seq<u8>,
    name: Seq<u8>,
    other: int,
)
    requires
        disk.wf(),
        disk.paths.dom().contains(root()),
        disk.admits(Change::SyncDirectory(path)),
        0 <= other < disk.nodes.len(),
    ensures
        ({
            let after = disk.applied(Change::SyncDirectory(path), opened, contents);
            let p = place(path@);
            let id = disk.paths[p] as int;
            &&& after.nodes.len() == disk.nodes.len()
            &&& after.nodes[id].children.dom().contains(name) <==> disk.paths.dom().contains(
                p.push(name),
            )
            &&& disk.paths.dom().contains(p.push(name)) ==> after.nodes[id].children[name]
                == disk.paths[p.push(name)]
            &&& after.nodes[id].data == disk.nodes[id].data
            &&& after.nodes[id].directory == disk.nodes[id].directory
            &&& other != id ==> after.nodes[other] == disk.nodes[other]
        }),
{
    assert(disk.ensured(root(), true) == disk);
}

/// A file that is synchronised keeps what it holds, and nothing else of the disk changes.
pub proof fn law_synchronized_file_changes_itself(
    disk: DiskModel,
    file: FileId,
    opened: FileId,
    contents: Seq<u8>,
    other: int,
)
    requires
        disk.wf(),
        disk.paths.dom().contains(root()),
        disk.admits(Change::SyncFile(file)),
        0 <= other < disk.nodes.len(),
    ensures
        ({
            let after = disk.applied(Change::SyncFile(file), opened, contents);
            let id = disk.paths[disk.handles[file.slot]] as int;
            &&& after.nodes.len() == disk.nodes.len()
            &&& after.nodes[id] == (NodeModel { data: contents, ..disk.nodes[id] })
            &&& other != id ==> after.nodes[other] == disk.nodes[other]
        }),
{
    assert(disk.ensured(root(), true) == disk);
}

/// After the power failed something is found under a path exactly by the names that were synchronised,
/// one directory after the other from the root on.
pub proof fn law_found_by_synchronized_names(
    disk: DiskModel,
    id: usize,
    name: Seq<u8>,
    rest: Seq<Seq<u8>>,
)
    ensures
        disk.reached(id, Seq::empty()) == Some(id),
        ({
            let node = disk.nodes[id as int];
            let path = seq![name] + rest;
            &&& node.directory && node.children.dom().contains(name) ==> disk.reached(id, path)
                == disk.reached(node.children[name], rest)
            &&& !(node.directory && node.children.dom().contains(name)) ==> disk.reached(id, path)
                is None
        }),
        disk.kept(rest) is Some ==> disk.paths.dom().contains(root()) && disk.reached(
            disk.paths[root()],
            rest,
        ) is Some && disk.kept(rest)->0 == disk.nodes[disk.reached(disk.paths[root()], rest)->0 as int],
{
    let path = seq![name] + rest;
    assert(path.drop_first() =~= rest);
    assert(path[0] == name);
}

} // verus!
