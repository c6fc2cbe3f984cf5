//! Directories that map entry names to inode numbers, and a file system that keeps a root
//! directory for each storage device.
use vstd::prelude::*;
use crate::keyvalue::{distinct_keys, find_key, lemma_map_of_absent, lemma_map_of_at, lemma_map_of_len, lemma_map_of_update, map_of};
use crate::text::text_eq;

verus! {

/// The kinds of storage devices.
#[allow(non_camel_case_types)]
#[derive(Debug, Clone, Copy, PartialEq, Eq, Hash, Structural)]
pub enum StorageDeviceType {
    HDD,
    SSD,
    SATA,
    NVMe,
    SAS,
    UFS,
    eMMC,
    USB,
}

/// A storage device: its kind and the identifier that tells it apart.
#[derive(Debug, Clone, PartialEq, Eq, Hash)]
pub struct StorageDevice {
    pub device_type: StorageDeviceType,
    pub device_id: String,
}

/// An entry of a directory: an inode number and a name.
#[derive(Debug, Clone)]
pub struct DirectoryEntry {
    pub inode: u64,
    pub name: String,
}

/// With distinct keys, removing an entry removes its key from the map and keeps the keys
/// distinct.
pub proof fn lemma_map_of_remove<V>(s: Seq<(String, V)>, i: int)
    requires
        distinct_keys(s),
        0 <= i < s.len(),
    ensures
        map_of(s.remove(i)) == map_of(s).remove(s[i].0@),
        distinct_keys(s.remove(i)),
    decreases s.len(),
{
    let t = s.remove(i);
    let k = s[i].0@;
    if i == s.len() - 1 {
        assert(t =~= s.drop_last());
        assert forall|j: int| 0 <= j < t.len() implies t[j].0@ != k by {
            assert(t[j] == s[j]);
        }
        lemma_map_of_absent(t, k);
        assert(map_of(t) =~= map_of(s).remove(k));
    } else {
        assert(t.drop_last() =~= s.drop_last().remove(i));
        assert(t.last() == s.last());
        lemma_map_of_remove(s.drop_last(), i);
        assert(map_of(t) =~= map_of(s).remove(k));
    }
}

/// A directory: entry names mapped to inode numbers.
#[derive(Debug)]
pub struct Directory {
    entries: Vec<(String, u64)>,
}

impl View for Directory {
    type V = Map<Seq<char>, u64>;

    closed spec fn view(&self) -> Map<Seq<char>, u64> {
        map_of(self.entries@)
    }
}

impl Directory {
    /// No name occurs twice.
    #[verifier::type_invariant]
    closed spec fn wf(&self) -> bool {
        distinct_keys(self.entries@)
    }

    /// An empty directory.
    pub fn new() -> (r: Directory)
        ensures
            r@ == Map::<Seq<char>, u64>::empty(),
    {
        Directory { entries: Vec::new() }
    }

    /// Maps `name` to `inode`.
    pub fn add_entry(&mut self, name: String, inode: u64)
        ensures
            final(self)@ == old(self)@.insert(name@, inode),
            final(self)@.dom().finite(),
            final(self)@.len() == old(self)@.len() + (if old(self)@.contains_key(name@) {
                0int
            } else {
                1int
            }),
    {
        proof {
            use_type_invariant(&*self);
            lemma_map_of_len(self.entries@);
        }
        let mut entries = Vec::new();
        std::mem::swap(&mut entries, &mut self.entries);
        match find_key(&entries, name.as_str()) {
            Some(i) => {
                proof {
                    lemma_map_of_update(entries@, i as int, (name, inode));
                }
                entries.set(i, (name, inode));
            },
            None => {
                proof {
                    assert(entries@.push((name, inode)).drop_last() =~= entries@);
                }
                entries.push((name, inode));
            },
        }
        self.entries = entries;
    }

    /// The inode of `name`, if it has an entry.
    pub fn get_entry_inode(&self, name: &str) -> (r: Option<u64>)
        ensures
            r == (if self@.contains_key(name@) {
                Some(self@[name@])
            } else {
                None::<u64>
            }),
    {
        proof {
            use_type_invariant(self);
        }
        match find_key(&self.entries, name) {
            Some(i) => {
                proof {
                    lemma_map_of_at(self.entries@, i as int);
                }
                Some(self.entries[i].1)
            },
            None => {
                proof {
                    lemma_map_of_absent(self.entries@, name@);
                }
                None
            },
        }
    }

    /// Removes the entry of `name`, if there is one.
    pub fn remove_entry(&mut self, name: &str)
        ensures
            final(self)@ == old(self)@.remove(name@),
            final(self)@.dom().finite(),
            final(self)@.len() == old(self)@.len() - (if old(self)@.contains_key(name@) {
                1int
            } else {
                0int
            }),
    {
        proof {
            use_type_invariant(&*self);
            lemma_map_of_len(self.entries@);
        }
        let mut entries = Vec::new();
        std::mem::swap(&mut entries, &mut self.entries);
        match find_key(&entries, name) {
            Some(i) => {
                proof {
                    lemma_map_of_remove(entries@, i as int);
                }
                entries.remove(i);
            },
            None => {
                proof {
                    lemma_map_of_absent(entries@, name@);
                    assert(map_of(entries@) =~= map_of(entries@).remove(name@));
                }
            },
        }
        self.entries = entries;
    }

    /// The names of the entries, each once.
    pub fn list_entry_names(&self) -> (r: Vec<&String>)
        ensures
            forall|i: int| 0 <= i < r@.len() ==> self@.contains_key(#[trigger] r@[i]@),
            forall|k: Seq<char>| #[trigger] self@.contains_key(k) ==> exists|i: int|
                0 <= i < r@.len() && r@[i]@ == k,
            forall|i: int, j: int| 0 <= i < j < r@.len() ==> r@[i]@ != r@[j]@,
            self@.dom().finite(),
            r@.len() == self@.len(),
    {
        proof {
            use_type_invariant(self);
            lemma_map_of_len(self.entries@);
        }
        let mut names: Vec<&String> = Vec::new();
        let mut i: usize = 0;
        while i < self.entries.len()
            invariant
                i <= self.entries@.len(),
                distinct_keys(self.entries@),
                names@.len() == i,
                forall|j: int| 0 <= j < i ==> names@[j]@ == self.entries@[j].0@,
            decreases self.entries@.len() - i,
        {
            names.push(&self.entries[i].0);
            i = i + 1;
        }
        proof {
            assert forall|j: int| 0 <= j < names@.len() implies self@.contains_key(
                #[trigger] names@[j]@,
            ) by {
                lemma_map_of_at(self.entries@, j);
            }
            assert forall|k: Seq<char>| #[trigger] self@.contains_key(k) implies exists|j: int|
                0 <= j < names@.len() && names@[j]@ == k by {
                if forall|j: int| 0 <= j < self.entries@.len() ==> self.entries@[j].0@ != k {
                    lemma_map_of_absent(self.entries@, k);
                }
                let j = choose|j: int| 0 <= j < self.entries@.len() && self.entries@[j].0@ == k;
                assert(names@[j]@ == k);
            }
        }
        names
    }

    /// The entries as `(name, inode)` pairs, each name once.
    pub fn list_entries(&self) -> (r: Vec<(String, u64)>)
        ensures
            distinct_keys(r@),
            map_of(r@) == self@,
            self@.dom().finite(),
            r@.len() == self@.len(),
    {
        proof {
            use_type_invariant(self);
            lemma_map_of_len(self.entries@);
        }
        let mut out: Vec<(String, u64)> = Vec::new();
        let mut i: usize = 0;
        while i < self.entries.len()
            invariant
                i <= self.entries@.len(),
                out@.len() == i,
                forall|j: int| 0 <= j < i ==> (#[trigger] out@[j]).0@ == self.entries@[j].0@
                    && out@[j].1 == self.entries@[j].1,
            decreases self.entries@.len() - i,
        {
            let name = self.entries[i].0.clone();
            out.push((name, self.entries[i].1));
            i = i + 1;
        }
        proof {
            lemma_same_map(out@, self.entries@);
        }
        out
    }
}

/// Two entry lists with the same names and values, place by place, stand for the same map.
proof fn lemma_same_map<V>(a: Seq<(String, V)>, b: Seq<(String, V)>)
    requires
        a.len() == b.len(),
        forall|j: int| 0 <= j < a.len() ==> (#[trigger] a[j]).0@ == b[j].0@ && a[j].1 == b[j].1,
    ensures
        map_of(a) == map_of(b),
        distinct_keys(a) == distinct_keys(b),
    decreases a.len(),
{
    if a.len() > 0 {
        lemma_same_map(a.drop_last(), b.drop_last());
        assert(a.last() == a[a.len() - 1]);
    }
    assert forall|i: int, j: int| 0 <= i < j < a.len() implies (a[i].0@ != a[j].0@) == (b[i].0@
        != b[j].0@) by {
        assert(a[i].0@ == b[i].0@);
        assert(a[j].0@ == b[j].0@);
    }
}

/// What tells storage devices apart: their kind and identifier.
pub open spec fn device_key(d: StorageDevice) -> (StorageDeviceType, Seq<char>) {
    (d.device_type, d.device_id@)
}

/// The map that a list of devices and root directories stands for, later entries last.
pub open spec fn device_map(s: Seq<(StorageDevice, Directory)>) -> Map<
    (StorageDeviceType, Seq<char>),
    Map<Seq<char>, u64>,
>
    decreases s.len(),
{
    if s.len() == 0 {
        Map::empty()
    } else {
        device_map(s.drop_last()).insert(device_key(s.last().0), s.last().1@)
    }
}

/// No device occurs twice in `s`.
pub open spec fn distinct_devices(s: Seq<(StorageDevice, Directory)>) -> bool {
    forall|i: int, j: int| 0 <= i < j < s.len() ==> device_key(s[i].0) != device_key(s[j].0)
}

proof fn lemma_device_absent(s: Seq<(StorageDevice, Directory)>, k: (StorageDeviceType, Seq<char>))
    requires
        forall|i: int| 0 <= i < s.len() ==> device_key(s[i].0) != k,
    ensures
        !device_map(s).contains_key(k),
    decreases s.len(),
{
    if s.len() > 0 {
        lemma_device_absent(s.drop_last(), k);
    }
}

proof fn lemma_device_at(s: Seq<(StorageDevice, Directory)>, i: int)
    requires
        distinct_devices(s),
        0 <= i < s.len(),
    ensures
        device_map(s).contains_key(device_key(s[i].0)),
        device_map(s)[device_key(s[i].0)] == s[i].1@,
    decreases s.len(),
{
    if i < s.len() - 1 {
        lemma_device_at(s.drop_last(), i);
    }
}

proof fn lemma_device_update(s: Seq<(StorageDevice, Directory)>, i: int, e: (StorageDevice, Directory))
    requires
        distinct_devices(s),
        0 <= i < s.len(),
        device_key(e.0) == device_key(s[i].0),
    ensures
        device_map(s.update(i, e)) == device_map(s).insert(device_key(e.0), e.1@),
        distinct_devices(s.update(i, e)),
    decreases s.len(),
{
    let t = s.update(i, e);
    if i == s.len() - 1 {
        assert(t.drop_last() =~= s.drop_last());
        assert(device_map(t) =~= device_map(s).insert(device_key(e.0), e.1@));
    } else {
        assert(t.drop_last() =~= s.drop_last().update(i, e));
        lemma_device_update(s.drop_last(), i, e);
        assert(device_map(t) =~= device_map(s).insert(device_key(e.0), e.1@));
    }
}

/// Where `device` is kept in `devices`, if anywhere.
fn find_device(devices: &Vec<(StorageDevice, Directory)>, device: &StorageDevice) -> (r: Option<usize>)
    ensures
        match r {
            Some(i) => i < devices@.len() && device_key(devices@[i as int].0) == device_key(*device),
            None => forall|i: int| 0 <= i < devices@.len() ==> device_key(devices@[i].0) != device_key(*device),
        },
{
    let mut i: usize = 0;
    while i < devices.len()
        invariant
            i <= devices@.len(),
            forall|j: int| 0 <= j < i ==> device_key(devices@[j].0) != device_key(*device),
        decreases devices@.len() - i,
    {
        let d = &devices[i].0;
        if d.device_type == device.device_type && text_eq(d.device_id.as_str(), device.device_id.as_str()) {
            return Some(i);
        }
        i = i + 1;
    }
    None
}

/// A file system: a root directory for each storage device.
pub struct FileSystem {
    devices: Vec<(StorageDevice, Directory)>,
}

impl View for FileSystem {
    type V = Map<(StorageDeviceType, Seq<char>), Map<Seq<char>, u64>>;

    closed spec fn view(&self) -> Self::V {
        device_map(self.devices@)
    }
}

impl FileSystem {
    /// No device occurs twice.
    #[verifier::type_invariant]
    closed spec fn wf(&self) -> bool {
        distinct_devices(self.devices@)
    }

    /// A file system without devices.
    pub fn new() -> (r: FileSystem)
        ensures
            r@ == Map::<(StorageDeviceType, Seq<char>), Map<Seq<char>, u64>>::empty(),
    {
        FileSystem { devices: Vec::new() }
    }

    /// Adds `device` with an empty root directory; a device already there gets an empty one.
    pub fn add_device(&mut self, device: StorageDevice)
        ensures
            final(self)@ == old(self)@.insert(device_key(device), Map::empty()),
    {
        proof {
            use_type_invariant(&*self);
        }
        let mut devices = Vec::new();
        std::mem::swap(&mut devices, &mut self.devices);
        let dir = Directory::new();
        match find_device(&devices, &device) {
            Some(i) => {
                proof {
                    lemma_device_update(devices@, i as int, (device, dir));
                }
                devices.set(i, (device, dir));
            },
            None => {
                proof {
                    assert(devices@.push((device, dir)).drop_last() =~= devices@);
                }
                devices.push((device, dir));
            },
        }
        self.devices = devices;
    }

    /// Maps `name` to `inode` in the root directory of `device`, if the device is known.
    pub fn add_entry_to_device_root(&mut self, device: &StorageDevice, name: String, inode: u64)
        ensures
            old(self)@.contains_key(device_key(*device)) ==> final(self)@ == old(self)@.insert(
                device_key(*device),
                old(self)@[device_key(*device)].insert(name@, inode),
            ),
            !old(self)@.contains_key(device_key(*device)) ==> final(self)@ == old(self)@,
    {
        proof {
            use_type_invariant(&*self);
        }
        let mut devices = Vec::new();
        std::mem::swap(&mut devices, &mut self.devices);
        match find_device(&devices, device) {
            Some(i) => {
                proof {
                    lemma_device_at(devices@, i as int);
                }
                let ghost before = devices@;
                let (d, mut dir) = devices.remove(i);
                dir.add_entry(name, inode);
                devices.insert(i, (d, dir));
                proof {
                    assert(devices@ =~= before.update(i as int, (d, dir)));
                    lemma_device_update(before, i as int, (d, dir));
                }
            },
            None => {
                proof {
                    lemma_device_absent(devices@, device_key(*device));
                }
            },
        }
        self.devices = devices;
    }

    /// The inode of `name` in the root directory of `device`, if both exist.
    pub fn get_entry_inode_from_device_root(&self, device: &StorageDevice, name: &str) -> (r: Option<u64>)
        ensures
            r == (if self@.contains_key(device_key(*device)) && self@[device_key(
                *device,
            )].contains_key(name@) {
                Some(self@[device_key(*device)][name@])
            } else {
                None::<u64>
            }),
    {
        proof {
            use_type_invariant(self);
        }
        match find_device(&self.devices, device) {
            Some(i) => {
                proof {
                    lemma_device_at(self.devices@, i as int);
                }
                self.devices[i].1.get_entry_inode(name)
            },
            None => {
                proof {
                    lemma_device_absent(self.devices@, device_key(*device));
                }
                None
            },
        }
    }

    /// Removes `name` from the root directory of `device`, if the device is known.
    pub fn remove_entry_from_device_root(&mut self, device: &StorageDevice, name: &str)
        ensures
            old(self)@.contains_key(device_key(*device)) ==> final(self)@ == old(self)@.insert(
                device_key(*device),
                old(self)@[device_key(*device)].remove(name@),
            ),
            !old(self)@.contains_key(device_key(*device)) ==> final(self)@ == old(self)@,
    {
        proof {
            use_type_invariant(&*self);
        }
        let mut devices = Vec::new();
        std::mem::swap(&mut devices, &mut self.devices);
        match find_device(&devices, device) {
            Some(i) => {
                proof {
                    lemma_device_at(devices@, i as int);
                }
                let ghost before = devices@;
                let (d, mut dir) = devices.remove(i);
                dir.remove_entry(name);
                devices.insert(i, (d, dir));
                proof {
                    assert(devices@ =~= before.update(i as int, (d, dir)));
                    lemma_device_update(before, i as int, (d, dir));
                }
            },
            None => {
                proof {
                    lemma_device_absent(devices@, device_key(*device));
                }
            },
        }
        self.devices = devices;
    }

    /// The entries of the root directory of `device`, each name once; none for an unknown
    /// device.
    pub fn list_entries_on_device_root(&self, device: &StorageDevice) -> (r: Vec<(String, u64)>)
        ensures
            distinct_keys(r@),
            self@.contains_key(device_key(*device)) ==> map_of(r@) == self@[device_key(*device)],
            self@.contains_key(device_key(*device)) ==> r@.len() == self@[device_key(*device)].len(),
            !self@.contains_key(device_key(*device)) ==> r@.len() == 0,
    {
        proof {
            use_type_invariant(self);
        }
        match find_device(&self.devices, device) {
            Some(i) => {
                proof {
                    lemma_device_at(self.devices@, i as int);
                }
                self.devices[i].1.list_entries()
            },
            None => {
                proof {
                    lemma_device_absent(self.devices@, device_key(*device));
                }
                Vec::new()
            },
        }
    }
}

/// In a directory, looking a name up after adding it gives the inode added, and leaves every
/// other name as it was.
pub proof fn lemma_directory_add_then_get(d: Map<Seq<char>, u64>, name: Seq<char>, inode: u64, other: Seq<char>)
    ensures
        d.insert(name, inode).contains_key(name),
        d.insert(name, inode)[name] == inode,
        other != name ==> (d.insert(name, inode).contains_key(other) == d.contains_key(other)),
        other != name && d.contains_key(other) ==> d.insert(name, inode)[other] == d[other],
{
}

/// In a directory, a removed name is no longer found, and every other name is kept.
pub proof fn lemma_directory_remove_then_get(d: Map<Seq<char>, u64>, name: Seq<char>, other: Seq<char>)
    ensures
        !d.remove(name).contains_key(name),
        other != name ==> (d.remove(name).contains_key(other) == d.contains_key(other)),
        other != name && d.contains_key(other) ==> d.remove(name)[other] == d[other],
{
}

/// In a file system, an entry added to a known device's root is found there, and the roots
/// of the other devices are unchanged.
pub proof fn lemma_file_system_add_then_get(
    fs: Map<(StorageDeviceType, Seq<char>), Map<Seq<char>, u64>>,
    dev: (StorageDeviceType, Seq<char>),
    name: Seq<char>,
    inode: u64,
    other: (StorageDeviceType, Seq<char>),
)
    requires
        fs.contains_key(dev),
    ensures
        ({
            let after = fs.insert(dev, fs[dev].insert(name, inode));
            &&& after.contains_key(dev)
            &&& after[dev].contains_key(name)
            &&& after[dev][name] == inode
            &&& other != dev ==> after.contains_key(other) == fs.contains_key(other)
            &&& other != dev && fs.contains_key(other) ==> after[other] == fs[other]
        }),
{
}

} // verus!
