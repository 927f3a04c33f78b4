use crate::component::Component;
use crate::component::UID;
use crate::component::UID_SIZE;
use crate::events::spec_decimal;
use crate::events::spec_send;
use crate::events::C_Param;
use crate::events::EventEmitter;
use crate::events::EventHandler;
use crate::events::ParamView;
use crate::events::Signal;
use crate::events::SignalView;
use crate::wire::spec_texts;
use vstd::prelude::*;

verus! {

/// The kind of the event that tells of a change in what is mounted.
pub const EVENT_FILESYSTEM_UPDATE: &'static str = "FileSystemUpdate";

/// A path name without the slashes it begins with.
pub open spec fn spec_trim_slashes(text: Seq<char>) -> Seq<char>
    decreases text.len(),
{
    if text.len() > 0 && text[0] == '/' {
        spec_trim_slashes(text.skip(1))
    } else {
        text
    }
}

/// The components that `std::path::Path` sees in a path name.
pub uninterp spec fn spec_components(text: Seq<char>) -> Seq<Seq<char>>;

/// The path name that `std::path::PathBuf` makes of a path name when one
/// more path is pushed onto it.
pub uninterp spec fn spec_pushed(base: Seq<char>, part: Seq<char>) -> Seq<char>;

/// The path name that results when components are pushed onto a path name
/// one after the other.
pub open spec fn spec_pushed_all(base: Seq<char>, rest: Seq<Seq<char>>) -> Seq<char>
    decreases rest.len(),
{
    if rest.len() == 0 {
        base
    } else {
        spec_pushed_all(spec_pushed(base, rest[0]), rest.skip(1))
    }
}

/// The place on disk of what lies at `rest` below the directory `base`. The
/// directory itself is named with the empty path pushed onto it.
pub open spec fn spec_joined(base: Seq<char>, rest: Seq<Seq<char>>) -> Seq<char> {
    if rest.len() == 0 {
        spec_pushed(base, Seq::<char>::empty())
    } else {
        spec_pushed_all(base, rest)
    }
}

/// `str::trim_start_matches` with `'/'`: the text without the slashes it
/// begins with.
#[verifier::external_body]
fn trim_slashes(text: &str) -> (trimmed: &str)
    ensures
        trimmed@ == spec_trim_slashes(text@),
{
    text.trim_start_matches('/')
}

/// `Path::components` of `std`: the components of a path name, each as a
/// string. The result is a function of the path name alone.
#[verifier::external_body]
fn components(text: &str) -> (parts: Vec<String>)
    ensures
        spec_texts(parts@) == spec_components(text@),
{
    std::path::Path::new(text).components().map(|c| c.as_os_str().to_string_lossy().into_owned()).collect()
}

/// `PathBuf::push` of `std`: the path name that results when `part` is
/// pushed onto `base`. It is a function of `base` and `part` alone.
#[verifier::external_body]
fn pushed(base: &str, part: &str) -> (path: String)
    ensures
        path@ == spec_pushed(base@, part@),
{
    let mut path = std::path::PathBuf::from(base);
    path.push(part);
    path.to_string_lossy().into_owned()
}

/// The place on disk of what lies at `rest` below the directory `base`.
fn joined(base: &str, rest: &Vec<String>) -> (path: String)
    ensures
        path@ == spec_joined(base@, spec_texts(rest@)),
{
    if rest.len() == 0 {
        proof {
            reveal_strlit("");
        }
        assert(""@ =~= Seq::<char>::empty());
        assert(spec_texts(rest@).len() == 0);
        return pushed(base, "");
    }
    let mut path = base.to_owned();
    let mut i: usize = 0;
    assert(spec_texts(rest@).skip(0) =~= spec_texts(rest@));
    while i < rest.len()
        invariant
            i <= rest.len(),
            spec_pushed_all(path@, spec_texts(rest@).skip(i as int)) == spec_pushed_all(
                base@,
                spec_texts(rest@),
            ),
        decreases rest.len() - i,
    {
        let ghost before = path@;
        let ghost left = spec_texts(rest@).skip(i as int);
        path = pushed(path.as_str(), rest[i].as_str());
        assert(left[0] == rest@[i as int]@);
        assert(left.skip(1) =~= spec_texts(rest@).skip(i + 1));
        i += 1;
    }
    assert(spec_texts(rest@).skip(rest.len() as int).len() == 0);
    path
}

/// The components of a path name that is taken from its first component on:
/// slashes at its beginning do not count.
pub open spec fn spec_rel_path(text: Seq<char>) -> Seq<Seq<char>> {
    spec_components(spec_trim_slashes(text))
}

/// Whether the path `path` begins with the whole of the path `prefix`.
pub open spec fn spec_is_prefix(prefix: Seq<Seq<char>>, path: Seq<Seq<char>>) -> bool {
    prefix.len() <= path.len() && path.take(prefix.len() as int) == prefix
}

fn rel_path(text: &str) -> (parts: Vec<String>)
    ensures
        spec_texts(parts@) == spec_rel_path(text@),
{
    components(trim_slashes(text))
}

/// Whether two paths have the same components.
pub fn same_path(a: &Vec<String>, b: &Vec<String>) -> (same: bool)
    ensures
        same == (spec_texts(a@) == spec_texts(b@)),
{
    if a.len() != b.len() {
        assert(spec_texts(a@).len() != spec_texts(b@).len());
        return false;
    }
    let mut i: usize = 0;
    while i < a.len()
        invariant
            i <= a.len(),
            a.len() == b.len(),
            forall|k: int| 0 <= k < i ==> spec_texts(a@)[k] == spec_texts(b@)[k],
        decreases a.len() - i,
    {
        if a[i] != b[i] {
            assert(spec_texts(a@)[i as int] != spec_texts(b@)[i as int]);
            return false;
        }
        i += 1;
    }
    assert(spec_texts(a@) =~= spec_texts(b@));
    true
}

/// Whether the path `path` begins with the whole of the path `prefix`.
pub fn is_prefix(prefix: &Vec<String>, path: &Vec<String>) -> (r: bool)
    ensures
        r == spec_is_prefix(spec_texts(prefix@), spec_texts(path@)),
{
    if prefix.len() > path.len() {
        return false;
    }
    let ghost want = spec_texts(path@).take(prefix.len() as int);
    let mut i: usize = 0;
    while i < prefix.len()
        invariant
            i <= prefix.len() <= path.len(),
            want == spec_texts(path@).take(prefix.len() as int),
            forall|k: int| 0 <= k < i ==> spec_texts(prefix@)[k] == want[k],
        decreases prefix.len() - i,
    {
        if prefix[i] != path[i] {
            assert(spec_texts(prefix@)[i as int] != want[i as int]);
            return false;
        }
        i += 1;
    }
    assert(want =~= spec_texts(prefix@));
    true
}

/// The components of `path` from the `from`-th on.
fn path_tail(path: &Vec<String>, from: usize) -> (tail: Vec<String>)
    requires
        from <= path.len(),
    ensures
        spec_texts(tail@) == spec_texts(path@).skip(from as int),
{
    let mut tail: Vec<String> = Vec::new();
    let mut i: usize = from;
    while i < path.len()
        invariant
            from <= i <= path.len(),
            tail@.len() == i - from,
            forall|k: int| 0 <= k < tail@.len() ==> (#[trigger] tail@[k])@ == path@[from + k]@,
        decreases path.len() - i,
    {
        tail.push(path[i].clone());
        i += 1;
    }
    assert(spec_texts(tail@) =~= spec_texts(path@).skip(from as int));
    tail
}

/// One mounted device: the path that names it, where its files are on disk,
/// and the path it is mounted at, as components and as it was given.
#[derive(Debug, Clone, PartialEq, Eq)]
pub struct Device {
    pub id: Vec<String>,
    pub path: String,
    pub mount: Vec<String>,
    pub mount_name: String,
}

/// What a [`Device`] stands for in contracts. Its depth is the number of
/// components of its mount point.
pub struct DeviceView {
    pub id: Seq<Seq<char>>,
    pub path: Seq<char>,
    pub mount: Seq<Seq<char>>,
    pub mount_name: Seq<char>,
}

impl View for Device {
    type V = DeviceView;

    open spec fn view(&self) -> DeviceView {
        DeviceView {
            id: spec_texts(self.id@),
            path: self.path@,
            mount: spec_texts(self.mount@),
            mount_name: self.mount_name@,
        }
    }
}

/// The views of the mounted devices, in the order in which they are
/// searched.
pub open spec fn spec_devices(mounts: Seq<Device>) -> Seq<DeviceView> {
    mounts.map_values(|d: Device| d@)
}

/// Whether a device may not be mounted: it is mounted already, or its mount
/// point is taken.
pub open spec fn spec_taken(mounts: Seq<DeviceView>, id: Seq<Seq<char>>, mount: Seq<Seq<char>>)
    -> bool {
    exists|i: int| 0 <= i < mounts.len() && (mounts[i].id == id || mounts[i].mount == mount)
}

/// Where a mount point of `depth` components goes into the table: behind
/// every mount point that is at least as deep, before the first that is
/// less deep.
pub open spec fn spec_slot(mounts: Seq<DeviceView>, depth: nat, slot: int) -> bool {
    &&& 0 <= slot <= mounts.len()
    &&& forall|j: int| 0 <= j < slot ==> (#[trigger] mounts[j]).mount.len() >= depth
    &&& slot < mounts.len() ==> mounts[slot].mount.len() < depth
}

/// Whether deeper mount points come before less deep ones.
pub open spec fn spec_deepest_first(mounts: Seq<DeviceView>) -> bool {
    forall|i: int, j: int|
        0 <= i <= j < mounts.len() ==> (#[trigger] mounts[i]).mount.len() >= (
        #[trigger] mounts[j]).mount.len()
}

/// Whether the `i`-th device is the first whose mount point `path` lies
/// under.
pub open spec fn spec_resolves_at(mounts: Seq<DeviceView>, path: Seq<Seq<char>>, i: int) -> bool {
    &&& 0 <= i < mounts.len()
    &&& spec_is_prefix(mounts[i].mount, path)
    &&& forall|j: int| 0 <= j < i ==> !spec_is_prefix((#[trigger] mounts[j]).mount, path)
}

/// Whether `path` lies under no mount point.
pub open spec fn spec_unresolved(mounts: Seq<DeviceView>, path: Seq<Seq<char>>) -> bool {
    forall|j: int| 0 <= j < mounts.len() ==> !spec_is_prefix((#[trigger] mounts[j]).mount, path)
}

/// The event that tells of a change at the mount point named `mount_name`.
pub open spec fn spec_update_signal(owner: UID, mount_name: Seq<char>) -> SignalView {
    SignalView {
        kind: Some(EVENT_FILESYSTEM_UPDATE@),
        origin: owner@,
        args: seq![
            ParamView { text: spec_decimal(0), is_num: true },
            ParamView { text: mount_name, is_num: false },
        ],
    }
}

/// The bus after a change at `mount_name` was published through `emitter`:
/// nothing is published without an emitter or on a closed bus.
pub open spec fn spec_published(
    queue: Seq<SignalView>,
    open: bool,
    emitter: Option<EventEmitter>,
    mount_name: Seq<char>,
) -> Seq<SignalView> {
    match emitter {
        Some(e) => if open {
            spec_send(queue, spec_update_signal(e.spec_owner(), mount_name))
        } else {
            queue
        },
        None => queue,
    }
}

/// A table of devices mounted into one tree of path names. It maps a path
/// name to the place on disk that stands behind it; it does not touch the
/// disk itself.
pub struct Filesystem {
    id: UID,
    root: String,
    name: Vec<String>,
    mounts: Vec<Device>,
    emitter: Option<EventEmitter>,
}

/// What a [`Filesystem`] stands for in contracts.
pub struct FilesystemView {
    pub root: Seq<char>,
    pub name: Seq<Seq<char>>,
    pub mounts: Seq<DeviceView>,
    pub emitter: Option<EventEmitter>,
}

impl FilesystemView {
    /// The path that names a device within the root, if `device` names one:
    /// what follows the name of the filesystem.
    pub open spec fn device_id(self, device: Seq<char>) -> Option<Seq<Seq<char>>> {
        if spec_is_prefix(self.name, spec_rel_path(device)) {
            Some(spec_rel_path(device).skip(self.name.len() as int))
        } else {
            None
        }
    }

    /// Whether `device` can be mounted at `mount`.
    pub open spec fn can_mount(self, device: Seq<char>, mount: Seq<char>) -> bool {
        match self.device_id(device) {
            Some(id) => !spec_taken(self.mounts, id, spec_rel_path(mount)),
            None => false,
        }
    }
}

impl View for Filesystem {
    type V = FilesystemView;

    closed spec fn view(&self) -> FilesystemView {
        FilesystemView {
            root: self.root@,
            name: spec_texts(self.name@),
            mounts: spec_devices(self.mounts@),
            emitter: self.emitter,
        }
    }
}

impl Component for Filesystem {
    closed spec fn spec_uid(&self) -> UID {
        self.id
    }

    closed spec fn spec_emitter(&self) -> Option<EventEmitter> {
        self.emitter
    }

    fn uid(&self) -> (id: UID) {
        self.id
    }

    fn listen(&mut self, emitter: Option<EventEmitter>)
        ensures
            final(self)@ == (FilesystemView { emitter, ..old(self)@ }),
    {
        self.emitter = emitter;
    }
}

impl Filesystem {
    /// A filesystem named `name` over the directory `root_path`, with
    /// nothing mounted. Its identifier is all zero.
    pub fn new(root_path: &str, name: &str) -> (fs: Self)
        ensures
            fs@ == (FilesystemView {
                root: root_path@,
                name: spec_rel_path(name@),
                mounts: Seq::<DeviceView>::empty(),
                emitter: None,
            }),
            fs.spec_uid()@ == Seq::new(UID_SIZE as nat, |i: int| 0u8),
            fs.spec_emitter() is None,
    {
        let fs = Filesystem {
            id: [0u8; UID_SIZE],
            root: root_path.to_owned(),
            name: rel_path(name),
            mounts: Vec::new(),
            emitter: None,
        };
        assert(fs@.mounts =~= Seq::<DeviceView>::empty());
        assert(fs.id@ =~= Seq::new(UID_SIZE as nat, |i: int| 0u8));
        fs
    }

    /// The directory that the devices lie in.
    pub fn root(&self) -> (root: &str)
        ensures
            root@ == self@.root,
    {
        self.root.as_str()
    }

    /// The number of mounted devices.
    pub fn mounted(&self) -> (n: usize)
        ensures
            n == self@.mounts.len(),
    {
        self.mounts.len()
    }

    /// The path that names a device within the root, if `device` names one.
    pub fn device_path(&self, device: &str) -> (id: Option<Vec<String>>)
        ensures
            match self@.device_id(device@) {
                Some(want) => id matches Some(got) && spec_texts(got@) == want,
                None => id is None,
            },
    {
        let path = rel_path(device);
        if is_prefix(&self.name, &path) {
            Some(path_tail(&path, self.name.len()))
        } else {
            None
        }
    }

    fn taken(&self, id: &Vec<String>, mount: &Vec<String>) -> (r: bool)
        ensures
            r == spec_taken(self@.mounts, spec_texts(id@), spec_texts(mount@)),
    {
        let mut i: usize = 0;
        while i < self.mounts.len()
            invariant
                i <= self.mounts.len(),
                forall|k: int|
                    0 <= k < i ==> !((#[trigger] self@.mounts[k]).id == spec_texts(id@)
                        || self@.mounts[k].mount == spec_texts(mount@)),
            decreases self.mounts.len() - i,
        {
            if same_path(&self.mounts[i].id, id) || same_path(&self.mounts[i].mount, mount) {
                assert(self@.mounts[i as int].id == spec_texts(id@) || self@.mounts[i as int].mount
                    == spec_texts(mount@));
                return true;
            }
            i += 1;
        }
        false
    }

    fn slot(&self, depth: usize) -> (slot: usize)
        ensures
            spec_slot(self@.mounts, depth as nat, slot as int),
    {
        let mut i: usize = 0;
        while i < self.mounts.len()
            invariant
                i <= self.mounts.len(),
                forall|j: int| 0 <= j < i ==> (#[trigger] self@.mounts[j]).mount.len() >= depth,
            decreases self.mounts.len() - i,
        {
            if self.mounts[i].mount.len() < depth {
                assert(self@.mounts[i as int].mount.len() < depth);
                return i;
            }
            i += 1;
        }
        i
    }

    fn fire_filesystem_update(&self, bus: &mut EventHandler, mount_name: &str)
        ensures
            final(bus).spec_is_open() == old(bus).spec_is_open(),
            final(bus)@ == spec_published(
                old(bus)@,
                old(bus).spec_is_open(),
                self@.emitter,
                mount_name@,
            ),
    {
        match self.emitter {
            Some(mut emitter) => {
                let mut params: Vec<C_Param> = Vec::new();
                params.push(C_Param::from(0, true));
                params.push(C_Param::from_str(mount_name));
                let signal = Signal::raw(EVENT_FILESYSTEM_UPDATE, emitter.owner(), params);
                assert(signal@.args =~= spec_update_signal(emitter.spec_owner(), mount_name@).args);
                emitter.send(bus, signal);
            },
            None => {},
        }
    }

    /// Mounts the device `device`, whose files are at `real_path` on disk,
    /// at the path `mount`. It is refused where `device` names no device of
    /// this filesystem, where the device is mounted already and where the
    /// mount point is taken. The device goes into the table behind the
    /// mount points that are at least as deep, so that a path is looked for
    /// under deeper mount points first, and the change is published.
    pub fn mount(&mut self, bus: &mut EventHandler, device: &str, mount: &str, real_path: &str)
        -> (mounted: bool)
        ensures
            mounted == old(self)@.can_mount(device@, mount@),
            final(bus).spec_is_open() == old(bus).spec_is_open(),
            !mounted ==> final(self)@ == old(self)@ && final(bus)@ == old(bus)@,
            mounted ==> exists|slot: int|
                {
                    &&& spec_slot(old(self)@.mounts, spec_rel_path(mount@).len(), slot)
                    &&& final(self)@ == (FilesystemView {
                        mounts: old(self)@.mounts.insert(
                            slot,
                            DeviceView {
                                id: old(self)@.device_id(device@)->0,
                                path: real_path@,
                                mount: spec_rel_path(mount@),
                                mount_name: spec_trim_slashes(mount@),
                            },
                        ),
                        ..old(self)@
                    })
                },
            mounted ==> final(bus)@ == spec_published(
                old(bus)@,
                old(bus).spec_is_open(),
                old(self)@.emitter,
                spec_trim_slashes(mount@),
            ),
    {
        let id = match self.device_path(device) {
            Some(id) => id,
            None => {
                return false;
            },
        };
        let mount_name = trim_slashes(mount);
        let mount_path = components(mount_name);
        if self.taken(&id, &mount_path) {
            return false;
        }
        let slot = self.slot(mount_path.len());
        let entry = Device {
            id,
            path: real_path.to_owned(),
            mount: mount_path,
            mount_name: mount_name.to_owned(),
        };
        let ghost entry_view = entry@;
        self.mounts.insert(slot, entry);
        assert(self@.mounts =~= old(self)@.mounts.insert(slot as int, entry_view));
        assert(spec_slot(old(self)@.mounts, spec_rel_path(mount@).len(), slot as int));
        assert(self@ == (FilesystemView {
            mounts: old(self)@.mounts.insert(slot as int, entry_view),
            ..old(self)@
        }));
        self.fire_filesystem_update(bus, mount_name);
        true
    }

    /// Takes the device `device` out of the table and publishes the change
    /// at its mount point. Nothing happens where `device` names no device
    /// that is mounted.
    pub fn unmount(&mut self, bus: &mut EventHandler, device: &str) -> (unmounted: bool)
        ensures
            final(bus).spec_is_open() == old(bus).spec_is_open(),
            unmounted <==> (old(self)@.device_id(device@) matches Some(id) && exists|i: int|
                0 <= i < old(self)@.mounts.len() && old(self)@.mounts[i].id == id),
            !unmounted ==> final(self)@ == old(self)@ && final(bus)@ == old(bus)@,
            unmounted ==> exists|i: int|
                {
                    &&& 0 <= i < old(self)@.mounts.len()
                    &&& Some(old(self)@.mounts[i].id) == old(self)@.device_id(device@)
                    &&& forall|j: int|
                        0 <= j < i ==> Some((#[trigger] old(self)@.mounts[j]).id) != old(
                            self,
                        )@.device_id(device@)
                    &&& final(self)@ == (FilesystemView {
                        mounts: old(self)@.mounts.remove(i),
                        ..old(self)@
                    })
                    &&& final(bus)@ == spec_published(
                        old(bus)@,
                        old(bus).spec_is_open(),
                        old(self)@.emitter,
                        old(self)@.mounts[i].mount_name,
                    )
                },
    {
        let id = match self.device_path(device) {
            Some(id) => id,
            None => {
                return false;
            },
        };
        let mut i: usize = 0;
        while i < self.mounts.len()
            invariant
                i <= self.mounts.len(),
                *self == *old(self),
                *bus == *old(bus),
                Some(spec_texts(id@)) == self@.device_id(device@),
                forall|j: int| 0 <= j < i ==> (#[trigger] self@.mounts[j]).id != spec_texts(id@),
            decreases self.mounts.len() - i,
        {
            if same_path(&self.mounts[i].id, &id) {
                assert(self@.mounts[i as int].id == spec_texts(id@));
                let gone = self.mounts.remove(i);
                assert(self@.mounts =~= old(self)@.mounts.remove(i as int));
                assert(gone@ == old(self)@.mounts[i as int]);
                assert(self@ == (FilesystemView {
                    mounts: old(self)@.mounts.remove(i as int),
                    ..old(self)@
                }));
                self.fire_filesystem_update(bus, gone.mount_name.as_str());
                return true;
            }
            i += 1;
        }
        false
    }

    /// The place on disk behind the path `path_name`: the files of the first
    /// device in the table whose mount point the path lies under, followed
    /// by what remains of the path below the mount point. A path under no
    /// mount point has no place.
    pub fn real_path(&self, path_name: &str) -> (place: Option<String>)
        ensures
            place is None <==> spec_unresolved(self@.mounts, spec_rel_path(path_name@)),
            place matches Some(path) ==> exists|i: int|
                {
                    &&& spec_resolves_at(self@.mounts, spec_rel_path(path_name@), i)
                    &&& path@ == spec_joined(
                        self@.mounts[i].path,
                        spec_rel_path(path_name@).skip(self@.mounts[i].mount.len() as int),
                    )
                },
    {
        let path = rel_path(path_name);
        let mut i: usize = 0;
        while i < self.mounts.len()
            invariant
                i <= self.mounts.len(),
                spec_texts(path@) == spec_rel_path(path_name@),
                forall|j: int|
                    0 <= j < i ==> !spec_is_prefix((#[trigger] self@.mounts[j]).mount, spec_texts(path@)),
            decreases self.mounts.len() - i,
        {
            if is_prefix(&self.mounts[i].mount, &path) {
                assert(spec_is_prefix(self@.mounts[i as int].mount, spec_texts(path@)));
                let rest = path_tail(&path, self.mounts[i].mount.len());
                let found = joined(self.mounts[i].path.as_str(), &rest);
                assert(spec_resolves_at(self@.mounts, spec_rel_path(path_name@), i as int));
                return Some(found);
            }
            i += 1;
        }
        None
    }
}

/// A table in which deeper mount points come first stays so when a device
/// is put where its depth says: a path is always looked for under the
/// deepest mount point first.
pub proof fn lemma_mount_keeps_deepest_first(mounts: Seq<DeviceView>, entry: DeviceView, slot: int)
    requires
        spec_deepest_first(mounts),
        spec_slot(mounts, entry.mount.len(), slot),
    ensures
        spec_deepest_first(mounts.insert(slot, entry)),
{
    let after = mounts.insert(slot, entry);
    assert forall|i: int, j: int| 0 <= i <= j < after.len() implies (#[trigger] after[i]).mount.len()
        >= (#[trigger] after[j]).mount.len() by {
        if i < slot && j > slot {
            assert(after[i] == mounts[i]);
            assert(after[j] == mounts[j - 1]);
            assert(mounts[i].mount.len() >= mounts[j - 1].mount.len());
        } else if i < slot && j < slot {
            assert(mounts[i].mount.len() >= mounts[j].mount.len());
        } else if i > slot {
            assert(after[i] == mounts[i - 1]);
            assert(after[j] == mounts[j - 1]);
            assert(mounts[i - 1].mount.len() >= mounts[j - 1].mount.len());
        } else if i == slot && j > slot {
            assert(after[j] == mounts[j - 1]);
            assert(mounts[slot].mount.len() >= mounts[j - 1].mount.len());
        } else {
        }
    }
}

} // verus!
