//! The session registry: which paths are open, and the enumeration index
//! that positional references are resolved against.

use vstd::prelude::*;
use crate::device::{list_item_of, views_of, DeviceDescriptor, DeviceDescriptorView, HidDeviceListItem};
use crate::descriptor::{get_report_id, report_id_of};
use crate::error::{SessionError, SessionErrorView};
use crate::read_loop::{copy_produced, produced_bytes, LoopState, ReadLoop, ReadLoopView};

verus! {

/// Identity of an open device: its path and the input report id that its
/// report descriptor declares.
#[derive(Debug, Clone, PartialEq, Eq)]
pub struct HidDeviceId {
    pub path: String,
    pub report_id: u8,
}

/// Mathematical value of a [`HidDeviceId`].
pub struct HidDeviceIdView {
    pub path: Seq<char>,
    pub report_id: u8,
}

impl View for HidDeviceId {
    type V = HidDeviceIdView;

    open spec fn view(&self) -> HidDeviceIdView {
        HidDeviceIdView { path: self.path@, report_id: self.report_id }
    }
}

/// A positional reference: a position in the enumeration with the given
/// serial number.
#[derive(Debug, Clone, Copy, PartialEq, Eq)]
pub struct DeviceIndex {
    pub enumeration: u64,
    pub position: usize,
}

/// What one enumeration hands to the consumer.
#[derive(Debug, Clone, PartialEq, Eq)]
pub struct DeviceList {
    /// Serial number of this enumeration; positional references into
    /// `devices` carry it.
    pub enumeration: u64,
    pub devices: Vec<HidDeviceListItem>,
}

/// One open device. `H` is the type of a platform handle.
struct ActiveHidDevice<H> {
    path: String,
    /// Handle that write and read commands go through.
    device: H,
    /// Handle of the background reader.
    reader: H,
    report_id: u8,
    /// Cleared when the background reader has ended; the session is then dead.
    read_loop_running: bool,
    /// Number of sessions that held this path before this one, modulo 2^64.
    generation: u64,
}

/// Mathematical value of a session, without its path.
pub struct SessionView<H> {
    /// Handle that write and read commands go through.
    pub device: H,
    /// Handle of the background reader.
    pub reader: H,
    /// Input report id that the device's report descriptor declares.
    pub report_id: u8,
    /// Whether the background reader has not ended. A session that is not
    /// alive is dead.
    pub alive: bool,
    /// Number of sessions that held the path before this one, modulo 2^64.
    pub generation: u64,
}

impl<H> ActiveHidDevice<H> {
    /// The session as a mathematical value.
    spec fn session(&self) -> SessionView<H> {
        SessionView {
            device: self.device,
            reader: self.reader,
            report_id: self.report_id,
            alive: self.read_loop_running,
            generation: self.generation,
        }
    }
}

/// What an open command has to do next.
#[derive(Debug, Clone, PartialEq, Eq)]
pub enum OpenPlan {
    /// The path has a live session: this is its identity, and nothing is to
    /// be acquired.
    AlreadyOpen(HidDeviceId),
    /// The path has no live session: platform handles for it are to be
    /// acquired and handed to [`HidDeviceState::finish_open`].
    Acquire(String),
}

/// Mathematical value of an [`OpenPlan`].
pub enum OpenPlanView {
    AlreadyOpen(HidDeviceIdView),
    Acquire(Seq<char>),
}

impl View for OpenPlan {
    type V = OpenPlanView;

    open spec fn view(&self) -> OpenPlanView {
        match self {
            OpenPlan::AlreadyOpen(id) => OpenPlanView::AlreadyOpen(id@),
            OpenPlan::Acquire(path) => OpenPlanView::Acquire(path@),
        }
    }
}

/// What acquiring the platform resources of a session came to.
#[derive(Debug)]
pub enum Acquisition<H> {
    /// Both handles were opened and the report descriptor was fetched.
    Acquired { device: H, reader: H, descriptor: Vec<u8> },
    /// The platform could not open the device; its diagnostic.
    OpenFailed(String),
    /// The platform could not give the report descriptor; its diagnostic.
    DescriptorFailed(String),
}

/// Result of a completed open.
#[derive(Debug)]
pub struct OpenedDevice<H> {
    /// Identity of the session that now serves the path.
    pub id: HidDeviceId,
    /// The background reader to start: present exactly when this open
    /// registered a new session.
    pub read_loop: Option<ReadLoop>,
    /// Handles that no session holds any more, for the caller to close: the
    /// two handles of the dead session that was replaced, or the two
    /// acquired handles where the path had a live session already.
    pub released: Vec<H>,
}

/// The serial number that follows `serial`; after the largest comes 0.
pub open spec fn next_serial(serial: u64) -> u64 {
    if serial == u64::MAX {
        0
    } else {
        (serial + 1) as u64
    }
}

fn bump(serial: u64) -> (next: u64)
    ensures
        next == next_serial(serial),
{
    if serial == u64::MAX {
        0
    } else {
        serial + 1
    }
}

/// The paths of a sequence of devices, in order.
pub open spec fn paths_of(devices: Seq<DeviceDescriptorView>) -> Seq<Seq<char>> {
    devices.map_values(|d: DeviceDescriptorView| d.path)
}

/// Whether position `i` of `entries` holds the session of `path`.
spec fn holds<H>(entries: Seq<ActiveHidDevice<H>>, path: Seq<char>, i: int) -> bool {
    0 <= i < entries.len() && entries[i].path@ == path
}

/// No two entries share a path.
spec fn distinct_paths<H>(entries: Seq<ActiveHidDevice<H>>) -> bool {
    forall|i: int, j: int| 0 <= i < j < entries.len() ==> entries[i].path@ != entries[j].path@
}

/// A position of `entries` that holds the session of `path`, if there is one.
spec fn slot<H>(entries: Seq<ActiveHidDevice<H>>, path: Seq<char>) -> int {
    choose|i: int| holds(entries, path, i)
}

/// The sessions that `entries` hold, by path.
spec fn sessions_of<H>(entries: Seq<ActiveHidDevice<H>>) -> Map<Seq<char>, SessionView<H>> {
    Map::new(
        |p: Seq<char>| exists|i: int| holds(entries, p, i),
        |p: Seq<char>| entries[slot(entries, p)].session(),
    )
}

/// Where no two entries share a path, the entry at a position is the session
/// of its path.
proof fn lemma_slot<H>(entries: Seq<ActiveHidDevice<H>>, path: Seq<char>, i: int)
    requires
        distinct_paths(entries),
        holds(entries, path, i),
    ensures
        slot(entries, path) == i,
        sessions_of(entries).contains_key(path),
        sessions_of(entries)[path] == entries[i].session(),
{
    let j = slot(entries, path);
    assert(holds(entries, path, j));
    if i < j {
        assert(entries[i].path@ != entries[j].path@);
    } else if j < i {
        assert(entries[j].path@ != entries[i].path@);
    }
}

/// Replacing the entry of a path by another entry for the same path
/// replaces the path's session and keeps the paths distinct.
proof fn lemma_replace<H>(
    entries: Seq<ActiveHidDevice<H>>,
    i: int,
    entry: ActiveHidDevice<H>,
)
    requires
        distinct_paths(entries),
        holds(entries, entry.path@, i),
    ensures
        distinct_paths(entries.update(i, entry)),
        sessions_of(entries.update(i, entry)) == sessions_of(entries).insert(
            entry.path@,
            entry.session(),
        ),
{
    let after = entries.update(i, entry);
    assert(distinct_paths(after)) by {
        assert forall|a: int, b: int| 0 <= a < b < after.len() implies after[a].path@
            != after[b].path@ by {
            assert(after[a].path@ == entries[a].path@);
            assert(after[b].path@ == entries[b].path@);
        }
    }
    let wanted = sessions_of(entries).insert(entry.path@, entry.session());
    assert forall|p: Seq<char>| sessions_of(after).contains_key(p) == wanted.contains_key(
        p,
    ) by {
        if sessions_of(after).contains_key(p) {
            let k = choose|k: int| holds(after, p, k);
            assert(holds(entries, p, k));
        }
        if sessions_of(entries).contains_key(p) {
            let k = choose|k: int| holds(entries, p, k);
            assert(holds(after, p, k));
        }
        if p == entry.path@ {
            assert(holds(after, p, i));
        }
    }
    assert forall|p: Seq<char>| sessions_of(after).contains_key(p) implies sessions_of(after)[p]
        == wanted[p] by {
        let k = choose|k: int| holds(after, p, k);
        lemma_slot(after, p, k);
        assert(holds(entries, p, k));
        lemma_slot(entries, p, k);
    }
    assert(sessions_of(after) =~= wanted);
}

/// Adding an entry for a path that no entry holds adds the path's session
/// and keeps the paths distinct.
proof fn lemma_append<H>(entries: Seq<ActiveHidDevice<H>>, entry: ActiveHidDevice<H>)
    requires
        distinct_paths(entries),
        forall|i: int| !holds(entries, entry.path@, i),
    ensures
        distinct_paths(entries.push(entry)),
        sessions_of(entries.push(entry)) == sessions_of(entries).insert(
            entry.path@,
            entry.session(),
        ),
{
    let after = entries.push(entry);
    assert(distinct_paths(after)) by {
        assert forall|a: int, b: int| 0 <= a < b < after.len() implies after[a].path@
            != after[b].path@ by {
            if b < entries.len() {
                assert(after[a].path@ == entries[a].path@);
                assert(after[b].path@ == entries[b].path@);
            } else {
                assert(!holds(entries, entry.path@, a));
            }
        }
    }
    let wanted = sessions_of(entries).insert(entry.path@, entry.session());
    assert forall|p: Seq<char>| sessions_of(after).contains_key(p) == wanted.contains_key(
        p,
    ) by {
        if sessions_of(after).contains_key(p) {
            let k = choose|k: int| holds(after, p, k);
            if k < entries.len() {
                assert(holds(entries, p, k));
            }
        }
        if sessions_of(entries).contains_key(p) {
            let k = choose|k: int| holds(entries, p, k);
            assert(holds(after, p, k));
        }
        if p == entry.path@ {
            assert(holds(after, p, entries.len() as int));
        }
    }
    assert forall|p: Seq<char>| sessions_of(after).contains_key(p) implies sessions_of(after)[p]
        == wanted[p] by {
        let k = choose|k: int| holds(after, p, k);
        lemma_slot(after, p, k);
        if k < entries.len() {
            assert(holds(entries, p, k));
            lemma_slot(entries, p, k);
        }
    }
    assert(sessions_of(after) =~= wanted);
}

/// The registry of sessions together with the current enumeration index.
pub struct HidDeviceState<H> {
    active: Vec<ActiveHidDevice<H>>,
    device_list: Vec<String>,
    serial: u64,
}

impl<H> HidDeviceState<H> {
    /// No two sessions share a path.
    #[verifier::type_invariant]
    spec fn wf(&self) -> bool {
        distinct_paths(self.active@)
    }

    /// The sessions, live and dead, by path.
    pub closed spec fn sessions(&self) -> Map<Seq<char>, SessionView<H>> {
        sessions_of(self.active@)
    }

    /// The current enumeration index: the paths of the devices that the last
    /// enumeration saw, in its order.
    pub closed spec fn index(&self) -> Seq<Seq<char>> {
        self.device_list@.map_values(|p: String| p@)
    }

    /// Serial number of the last enumeration.
    pub closed spec fn enumeration(&self) -> u64 {
        self.serial
    }

    /// Whether the path has a session whose background reader has not ended.
    pub open spec fn is_live(&self, path: Seq<char>) -> bool {
        self.sessions().contains_key(path) && self.sessions()[path].alive
    }

    /// The path that a positional reference names, if it is valid against the
    /// current enumeration.
    pub open spec fn resolve(&self, index: DeviceIndex) -> Option<Seq<char>> {
        if index.enumeration == self.enumeration() && index.position < self.index().len() {
            Some(self.index()[index.position as int])
        } else {
            None
        }
    }

    /// A registry without sessions, before any enumeration.
    pub fn new() -> (state: Self)
        ensures
            state.sessions() == Map::<Seq<char>, SessionView<H>>::empty(),
            state.index() == Seq::<Seq<char>>::empty(),
            state.enumeration() == 0,
    {
        let state = HidDeviceState { active: Vec::new(), device_list: Vec::new(), serial: 0 };
        assert(state.sessions() =~= Map::<Seq<char>, SessionView<H>>::empty());
        assert(state.index() =~= Seq::<Seq<char>>::empty());
        state
    }

    fn find(&self, path: &String) -> (found: Option<usize>)
        ensures
            match found {
                Some(i) => holds(self.active@, path@, i as int),
                None => forall|i: int| !holds(self.active@, path@, i),
            },
    {
        let mut i: usize = 0;
        while i < self.active.len()
            invariant
                i <= self.active.len(),
                forall|j: int| 0 <= j < i ==> !holds(self.active@, path@, j),
            decreases self.active.len() - i,
        {
            if self.active[i].path == *path {
                return Some(i);
            }
            i = i + 1;
        }
        None
    }

    /// Whether the path has a live session.
    pub fn is_open(&self, path: &String) -> (open: bool)
        ensures
            open == self.is_live(path@),
    {
        proof {
            use_type_invariant(self);
        }
        match self.find(path) {
            Some(i) => {
                proof {
                    lemma_slot(self.active@, path@, i as int);
                }
                self.active[i].read_loop_running
            },
            None => false,
        }
    }

    /// The device list for a fresh observation of the attached devices.
    ///
    /// Replaces the enumeration index by the paths of `devices`, in their
    /// order, under the next serial number. Each entry says whether its
    /// device's path has a live session. No session is touched.
    pub fn hid_get_devices(&mut self, devices: &Vec<DeviceDescriptor>) -> (list: DeviceList)
        ensures
            final(self).index() == paths_of(views_of(devices@)),
            final(self).enumeration() == next_serial(old(self).enumeration()),
            final(self).sessions() == old(self).sessions(),
            list.enumeration == final(self).enumeration(),
            views_of(list.devices@) == Seq::new(
                devices@.len(),
                |i: int| list_item_of(devices@[i]@, old(self).is_live(devices@[i].path@)),
            ),
    {
        proof {
            use_type_invariant(&*self);
        }
        let mut items: Vec<HidDeviceListItem> = Vec::new();
        let mut paths: Vec<String> = Vec::new();
        let mut i: usize = 0;
        while i < devices.len()
            invariant
                i <= devices.len(),
                items@.len() == i,
                paths@.len() == i,
                forall|j: int|
                    0 <= j < i ==> (#[trigger] items@[j])@ == list_item_of(
                        devices@[j]@,
                        self.is_live(devices@[j].path@),
                    ),
                forall|j: int| 0 <= j < i ==> (#[trigger] paths@[j])@ == devices@[j].path@,
            decreases devices.len() - i,
        {
            let device = &devices[i];
            let opened = self.is_open(&device.path);
            items.push(HidDeviceListItem::describe(device, opened));
            paths.push(device.path.clone());
            i = i + 1;
        }
        self.device_list = paths;
        self.serial = bump(self.serial);
        proof {
            assert(self.index() =~= paths_of(views_of(devices@)));
            assert(views_of(items@) =~= Seq::new(
                devices@.len(),
                |i: int| list_item_of(devices@[i]@, old(self).is_live(devices@[i].path@)),
            ));
        }
        DeviceList { enumeration: self.serial, devices: items }
    }

    /// Identity under which the session of `path` is known.
    pub open spec fn identity(&self, path: Seq<char>) -> HidDeviceIdView {
        HidDeviceIdView { path, report_id: self.sessions()[path].report_id }
    }

    /// What an open of `path` has to do: nothing where the path has a live
    /// session, else acquire the platform resources.
    pub open spec fn plan_for(&self, path: Seq<char>) -> OpenPlanView {
        if self.is_live(path) {
            OpenPlanView::AlreadyOpen(self.identity(path))
        } else {
            OpenPlanView::Acquire(path)
        }
    }

    /// The handles that the session of `path` holds: none where the path has
    /// no session, else the command handle and the reader's handle.
    pub open spec fn handles_of(&self, path: Seq<char>) -> Seq<H> {
        if self.sessions().contains_key(path) {
            seq![self.sessions()[path].device, self.sessions()[path].reader]
        } else {
            Seq::empty()
        }
    }

    /// The generation that the next session of `path` gets.
    pub open spec fn generation_for(&self, path: Seq<char>) -> u64 {
        if self.sessions().contains_key(path) {
            next_serial(self.sessions()[path].generation)
        } else {
            0
        }
    }

    /// The session that a completed open registers for a path without a
    /// live session: alive, with the acquired handles, the report id that
    /// the descriptor declares and the path's next generation.
    pub open spec fn fresh_session(
        &self,
        path: Seq<char>,
        device: H,
        reader: H,
        descriptor: Seq<u8>,
    ) -> SessionView<H> {
        SessionView {
            device,
            reader,
            report_id: report_id_of(descriptor),
            alive: true,
            generation: self.generation_for(path),
        }
    }

    /// The sessions after an open of `path` has completed with acquired
    /// resources: unchanged where the path has a live session, else with
    /// the fresh session in the slot of the path.
    pub open spec fn after_open(
        &self,
        path: Seq<char>,
        device: H,
        reader: H,
        descriptor: Seq<u8>,
    ) -> Map<Seq<char>, SessionView<H>> {
        if self.is_live(path) {
            self.sessions()
        } else {
            self.sessions().insert(path, self.fresh_session(path, device, reader, descriptor))
        }
    }

    /// The identity that an open of `path` returns when it completes with
    /// acquired resources: that of the live session where there is one, else
    /// the path with the report id that the descriptor declares.
    pub open spec fn opened_identity(&self, path: Seq<char>, descriptor: Seq<u8>) -> HidDeviceIdView {
        if self.is_live(path) {
            self.identity(path)
        } else {
            HidDeviceIdView { path, report_id: report_id_of(descriptor) }
        }
    }

    /// Whether the slot of `path` is held by the session of that generation.
    pub open spec fn owns(&self, path: Seq<char>, generation: u64) -> bool {
        self.sessions().contains_key(path) && self.sessions()[path].generation == generation
    }

    /// Whether the reader of that generation may go on: it holds the slot of
    /// `path` and the session's flag is set.
    pub open spec fn may_run(&self, path: Seq<char>, generation: u64) -> bool {
        self.owns(path, generation) && self.sessions()[path].alive
    }

    /// The sessions after the reader of that generation has ended: its
    /// session, if it still holds the slot, is dead; nothing else differs.
    pub open spec fn ended(&self, path: Seq<char>, generation: u64) -> Map<
        Seq<char>,
        SessionView<H>,
    > {
        if self.owns(path, generation) {
            self.sessions().insert(
                path,
                SessionView { alive: false, ..self.sessions()[path] },
            )
        } else {
            self.sessions()
        }
    }

    /// Plans the open of a device that is addressed by its path.
    ///
    /// A path with a live session yields that session's identity, and asks
    /// for no handle. Any other path is to be acquired.
    pub fn hid_open_path(&self, path: &String) -> (plan: OpenPlan)
        ensures
            plan@ == self.plan_for(path@),
    {
        proof {
            use_type_invariant(self);
        }
        match self.find(path) {
            Some(i) => {
                proof {
                    lemma_slot(self.active@, path@, i as int);
                }
                if self.active[i].read_loop_running {
                    OpenPlan::AlreadyOpen(
                        HidDeviceId { path: path.clone(), report_id: self.active[i].report_id },
                    )
                } else {
                    OpenPlan::Acquire(path.clone())
                }
            },
            None => OpenPlan::Acquire(path.clone()),
        }
    }

    /// Plans the open of a device that is addressed by position.
    ///
    /// The reference is valid only against the enumeration that it names and
    /// within that enumeration's bounds; any other is refused with
    /// `IndexOutOfRange`. A valid one is planned like its path.
    pub fn hid_open_device(&self, device_index: DeviceIndex) -> (r: Result<OpenPlan, SessionError>)
        ensures
            match self.resolve(device_index) {
                Some(path) => r matches Ok(plan) && plan@ == self.plan_for(path),
                None => r matches Err(e) && e@ == SessionErrorView::IndexOutOfRange,
            },
    {
        if device_index.enumeration != self.serial || device_index.position
            >= self.device_list.len() {
            return Err(SessionError::IndexOutOfRange);
        }
        Ok(self.hid_open_path(&self.device_list[device_index.position]))
    }

    /// Completes an open of `path` with what acquiring its resources came to.
    ///
    /// A failed acquisition is reported and changes nothing. Where the path
    /// has a live session, that session stays, its identity is returned and
    /// the acquired handles are handed back. Otherwise a new session takes
    /// the slot of the path, whole: it is alive, holds the acquired handles
    /// and the report id that the descriptor declares, and its reader is to
    /// be started. The handles of a dead session that it replaces are handed
    /// back together.
    pub fn finish_open(&mut self, path: String, acquisition: Acquisition<H>) -> (r: Result<
        OpenedDevice<H>,
        SessionError,
    >)
        ensures
            final(self).index() == old(self).index(),
            final(self).enumeration() == old(self).enumeration(),
            match acquisition {
                Acquisition::OpenFailed(text) => {
                    &&& r matches Err(e) && e@ == SessionErrorView::DeviceOpenFailed(text@)
                    &&& final(self).sessions() == old(self).sessions()
                },
                Acquisition::DescriptorFailed(text) => {
                    &&& r matches Err(e) && e@ == SessionErrorView::IoError(text@)
                    &&& final(self).sessions() == old(self).sessions()
                },
                Acquisition::Acquired { device, reader, descriptor } => {
                    &&& r matches Ok(opened) && {
                        &&& opened.id@ == old(self).opened_identity(path@, descriptor@)
                        &&& if old(self).is_live(path@) {
                            &&& opened.read_loop.is_none()
                            &&& opened.released@ == seq![device, reader]
                        } else {
                            &&& opened.read_loop matches Some(task) && task@ == (ReadLoopView {
                                path: path@,
                                generation: old(self).generation_for(path@),
                                state: LoopState::Running,
                            })
                            &&& opened.released@ == old(self).handles_of(path@)
                        }
                    }
                    &&& final(self).sessions() == old(self).after_open(
                        path@,
                        device,
                        reader,
                        descriptor@,
                    )
                },
            },
    {
        proof {
            use_type_invariant(&*self);
        }
        match acquisition {
            Acquisition::OpenFailed(text) => Err(SessionError::DeviceOpenFailed(text)),
            Acquisition::DescriptorFailed(text) => Err(SessionError::IoError(text)),
            Acquisition::Acquired { device, reader, descriptor } => {
                let report_id: u8 = get_report_id(descriptor.as_slice());
                let mut released: Vec<H> = Vec::new();
                match self.find(&path) {
                    Some(i) => {
                        proof {
                            lemma_slot(self.active@, path@, i as int);
                        }
                        if self.active[i].read_loop_running {
                            let id = HidDeviceId { path, report_id: self.active[i].report_id };
                            released.push(device);
                            released.push(reader);
                            Ok(OpenedDevice { id, read_loop: None, released })
                        } else {
                            let generation: u64 = bump(self.active[i].generation);
                            let mut entry = ActiveHidDevice {
                                path: path.clone(),
                                device,
                                reader,
                                report_id,
                                read_loop_running: true,
                                generation,
                            };
                            let mut active: Vec<ActiveHidDevice<H>> = Vec::new();
                            std::mem::swap(&mut active, &mut self.active);
                            proof {
                                lemma_replace(active@, i as int, entry);
                            }
                            active.set_and_swap(i, &mut entry);
                            self.active = active;
                            released.push(entry.device);
                            released.push(entry.reader);
                            Ok(
                                OpenedDevice {
                                    id: HidDeviceId { path: path.clone(), report_id },
                                    read_loop: Some(ReadLoop::new(path, generation)),
                                    released,
                                },
                            )
                        }
                    },
                    None => {
                        let entry = ActiveHidDevice {
                            path: path.clone(),
                            device,
                            reader,
                            report_id,
                            read_loop_running: true,
                            generation: 0,
                        };
                        let mut active: Vec<ActiveHidDevice<H>> = Vec::new();
                        std::mem::swap(&mut active, &mut self.active);
                        proof {
                            lemma_append(active@, entry);
                        }
                        active.push(entry);
                        self.active = active;
                        Ok(
                            OpenedDevice {
                                id: HidDeviceId { path: path.clone(), report_id },
                                read_loop: Some(ReadLoop::new(path, 0)),
                                released,
                            },
                        )
                    },
                }
            },
        }
    }

    fn command_handle(&self, path: &String) -> (r: Result<&H, SessionError>)
        ensures
            if self.is_live(path@) {
                r matches Ok(handle) && *handle == self.sessions()[path@].device
            } else {
                r matches Err(e) && e@ == SessionErrorView::NotOpen
            },
    {
        proof {
            use_type_invariant(self);
        }
        match self.find(path) {
            Some(i) => {
                proof {
                    lemma_slot(self.active@, path@, i as int);
                }
                if self.active[i].read_loop_running {
                    Ok(&self.active[i].device)
                } else {
                    Err(SessionError::NotOpen)
                }
            },
            None => Err(SessionError::NotOpen),
        }
    }

    /// Begins a write to the device `device`: finds the handle to write
    /// through.
    ///
    /// Fails with `NotOpen` exactly when the path has no live session. The
    /// registry is not touched either way.
    pub fn hid_write(&self, device: &String) -> (r: Result<&H, SessionError>)
        ensures
            if self.is_live(device@) {
                r matches Ok(handle) && *handle == self.sessions()[device@].device
            } else {
                r matches Err(e) && e@ == SessionErrorView::NotOpen
            },
    {
        self.command_handle(device)
    }

    /// Begins a read from the device `device`: finds the handle to read
    /// through and supplies the buffer to read into, of
    /// [`REPORT_BUFFER_SIZE`] zero bytes.
    ///
    /// Fails with `NotOpen` exactly when the path has no live session. The
    /// registry is not touched either way.
    pub fn hid_read(&self, device: &HidDeviceId) -> (r: Result<(&H, Vec<u8>), SessionError>)
        ensures
            if self.is_live(device.path@) {
                r matches Ok(request) && *request.0 == self.sessions()[device.path@].device
                    && request.1@ == Seq::new(REPORT_BUFFER_SIZE as nat, |i: int| 0u8)
            } else {
                r matches Err(e) && e@ == SessionErrorView::NotOpen
            },
    {
        match self.command_handle(&device.path) {
            Ok(handle) => Ok((handle, report_buffer())),
            Err(e) => Err(e),
        }
    }

    /// The handle that the background reader of that generation reads
    /// through, while its session holds the slot of `path`.
    pub fn reader_handle(&self, path: &String, generation: u64) -> (handle: Option<&H>)
        ensures
            if self.owns(path@, generation) {
                handle matches Some(h) && *h == self.sessions()[path@].reader
            } else {
                handle.is_none()
            },
    {
        proof {
            use_type_invariant(self);
        }
        match self.find(path) {
            Some(i) => {
                proof {
                    lemma_slot(self.active@, path@, i as int);
                }
                if self.active[i].generation == generation {
                    Some(&self.active[i].reader)
                } else {
                    None
                }
            },
            None => None,
        }
    }

    /// Whether the background reader of that generation may go on reading
    /// `path`.
    pub fn reader_may_run(&self, path: &String, generation: u64) -> (b: bool)
        ensures
            b == self.may_run(path@, generation),
    {
        proof {
            use_type_invariant(self);
        }
        match self.find(path) {
            Some(i) => {
                proof {
                    lemma_slot(self.active@, path@, i as int);
                }
                self.active[i].generation == generation && self.active[i].read_loop_running
            },
            None => false,
        }
    }

    /// Records that the background reader of that generation has ended.
    ///
    /// Its session becomes dead if it still holds the slot of `path`; a
    /// newer session in that slot is left alone.
    pub fn end_session(&mut self, path: &String, generation: u64)
        ensures
            final(self).index() == old(self).index(),
            final(self).enumeration() == old(self).enumeration(),
            final(self).sessions() == old(self).ended(path@, generation),
    {
        proof {
            use_type_invariant(&*self);
        }
        match self.find(path) {
            Some(i) => {
                proof {
                    lemma_slot(self.active@, path@, i as int);
                }
                if self.active[i].generation == generation {
                    let mut active: Vec<ActiveHidDevice<H>> = Vec::new();
                    std::mem::swap(&mut active, &mut self.active);
                    let ghost before = active@;
                    let held = active.remove(i);
                    let entry = ActiveHidDevice {
                        path: held.path,
                        device: held.device,
                        reader: held.reader,
                        report_id: held.report_id,
                        read_loop_running: false,
                        generation: held.generation,
                    };
                    proof {
                        lemma_replace(before, i as int, entry);
                        assert(before.remove(i as int).insert(i as int, entry) =~= before.update(
                            i as int,
                            entry,
                        ));
                    }
                    active.insert(i, entry);
                    self.active = active;
                }
            },
            None => {},
        }
    }
}

/// An open of a path that has a live session asks for no handle, returns the
/// identity of that session and leaves every session as it is, whatever was
/// acquired for it.
pub proof fn lemma_open_of_live_path<H>(
    state: HidDeviceState<H>,
    path: Seq<char>,
    device: H,
    reader: H,
    descriptor: Seq<u8>,
)
    requires
        state.is_live(path),
    ensures
        state.plan_for(path) == OpenPlanView::AlreadyOpen(state.identity(path)),
        state.opened_identity(path, descriptor) == state.identity(path),
        state.after_open(path, device, reader, descriptor) == state.sessions(),
{
}

/// Open is idempotent. Let `second` be the registry after an open of `path`
/// has completed on `first`. Then the path is live in `second`, a further
/// open of it is planned as already open under the identity that the first
/// open returned, and completing a further open returns that identity again
/// and registers nothing.
pub proof fn lemma_open_twice<H>(
    first: HidDeviceState<H>,
    second: HidDeviceState<H>,
    path: Seq<char>,
    device: H,
    reader: H,
    descriptor: Seq<u8>,
    device2: H,
    reader2: H,
    descriptor2: Seq<u8>,
)
    requires
        second.sessions() == first.after_open(path, device, reader, descriptor),
    ensures
        second.is_live(path),
        second.plan_for(path) == OpenPlanView::AlreadyOpen(
            first.opened_identity(path, descriptor),
        ),
        second.opened_identity(path, descriptor2) == first.opened_identity(path, descriptor),
        second.after_open(path, device2, reader2, descriptor2) == second.sessions(),
{
}

/// A positional reference that was valid before an enumeration is invalid
/// after it, whether or not the number or the order of the devices changed.
pub proof fn lemma_enumeration_outdates_index<H>(
    before: HidDeviceState<H>,
    after: HidDeviceState<H>,
    index: DeviceIndex,
)
    requires
        after.enumeration() == next_serial(before.enumeration()),
        before.resolve(index).is_some(),
    ensures
        after.resolve(index).is_none(),
{
}

/// The serial number reached from `serial` by `count` further enumerations.
pub open spec fn serial_after(serial: u64, count: nat) -> u64
    decreases count,
{
    if count == 0 {
        serial
    } else {
        next_serial(serial_after(serial, (count - 1) as nat))
    }
}

/// Serial numbers count enumerations modulo 2^64.
pub proof fn lemma_serial_after(serial: u64, count: nat)
    ensures
        serial_after(serial, count) == (serial + count) % 0x1_0000_0000_0000_0000,
    decreases count,
{
    if count > 0 {
        lemma_serial_after(serial, (count - 1) as nat);
        let before = serial_after(serial, (count - 1) as nat);
        assert(next_serial(before) == (before + 1) % 0x1_0000_0000_0000_0000) by {
            if before == u64::MAX {
                assert((before + 1) % 0x1_0000_0000_0000_0000 == 0);
            } else {
                assert((before + 1) % 0x1_0000_0000_0000_0000 == before + 1);
            }
        }
        assert((((serial + count - 1) % 0x1_0000_0000_0000_0000) + 1) % 0x1_0000_0000_0000_0000
            == (serial + count) % 0x1_0000_0000_0000_0000) by {
            vstd::arithmetic::div_mod::lemma_add_mod_noop(
                serial + count - 1,
                1,
                0x1_0000_0000_0000_0000,
            );
            assert(1int % 0x1_0000_0000_0000_0000 == 1);
        }
    }
}

/// A positional reference that was valid against an older enumeration is
/// invalid against a newer one, however the devices compare, as long as
/// fewer than 2^64 enumerations lie between the two.
pub proof fn lemma_older_index_is_stale<H>(
    older: HidDeviceState<H>,
    newer: HidDeviceState<H>,
    index: DeviceIndex,
    count: nat,
)
    requires
        0 < count < 0x1_0000_0000_0000_0000,
        newer.enumeration() == serial_after(older.enumeration(), count),
        older.resolve(index).is_some(),
    ensures
        newer.resolve(index).is_none(),
{
    lemma_serial_after(older.enumeration(), count);
    let serial = older.enumeration();
    assert((serial + count) % 0x1_0000_0000_0000_0000 != serial) by {
        if serial + count < 0x1_0000_0000_0000_0000 {
            assert((serial + count) % 0x1_0000_0000_0000_0000 == serial + count);
        } else {
            assert((serial + count) % 0x1_0000_0000_0000_0000 == serial + count
                - 0x1_0000_0000_0000_0000);
        }
    }
}

/// A positional reference is valid exactly when it names the current
/// enumeration and a position within it.
pub proof fn lemma_resolve<H>(state: HidDeviceState<H>, index: DeviceIndex)
    ensures
        state.resolve(index).is_some() <==> index.enumeration == state.enumeration()
            && index.position < state.index().len(),
        state.resolve(index).is_some() ==> state.resolve(index) == Some(
            state.index()[index.position as int],
        ),
{
}

/// The session that replaces a dead one differs from it in generation, so
/// the reader of the dead session does not hold the slot any more and its
/// ending leaves the new session alone.
pub proof fn lemma_replacement_outdates_reader<H>(
    before: HidDeviceState<H>,
    after: HidDeviceState<H>,
    path: Seq<char>,
    device: H,
    reader: H,
    descriptor: Seq<u8>,
)
    requires
        before.sessions().contains_key(path),
        !before.is_live(path),
        after.sessions() == before.after_open(path, device, reader, descriptor),
    ensures
        !after.owns(path, before.sessions()[path].generation),
        after.ended(path, before.sessions()[path].generation) == after.sessions(),
        after.is_live(path),
{
}

/// Opens of distinct paths do not observe each other. Completing an open of
/// one path changes neither whether the other path is live, nor the identity
/// that an open of the other returns, and the two opens leave the same
/// sessions behind in either order.
pub proof fn lemma_opens_of_distinct_paths_commute<H>(
    start: HidDeviceState<H>,
    after_first: HidDeviceState<H>,
    after_second: HidDeviceState<H>,
    first: Seq<char>,
    first_device: H,
    first_reader: H,
    first_descriptor: Seq<u8>,
    second: Seq<char>,
    second_device: H,
    second_reader: H,
    second_descriptor: Seq<u8>,
)
    requires
        first != second,
        after_first.sessions() == start.after_open(
            first,
            first_device,
            first_reader,
            first_descriptor,
        ),
        after_second.sessions() == start.after_open(
            second,
            second_device,
            second_reader,
            second_descriptor,
        ),
    ensures
        after_first.is_live(second) == start.is_live(second),
        after_second.is_live(first) == start.is_live(first),
        after_first.opened_identity(second, second_descriptor) == start.opened_identity(
            second,
            second_descriptor,
        ),
        after_second.opened_identity(first, first_descriptor) == start.opened_identity(
            first,
            first_descriptor,
        ),
        after_first.after_open(second, second_device, second_reader, second_descriptor)
            == after_second.after_open(first, first_device, first_reader, first_descriptor),
{
    assert(after_first.after_open(second, second_device, second_reader, second_descriptor)
        =~= after_second.after_open(first, first_device, first_reader, first_descriptor));
}

/// A path that has no session, or a dead one, is not live: write and read
/// refuse it, and an open of it is planned as an acquisition.
pub proof fn lemma_unopened_path<H>(state: HidDeviceState<H>, path: Seq<char>)
    requires
        !state.sessions().contains_key(path) || !state.sessions()[path].alive,
    ensures
        !state.is_live(path),
        state.plan_for(path) == OpenPlanView::Acquire(path),
{
}

/// Size of the buffer that a read goes into: the largest report with its
/// report id.
pub const REPORT_BUFFER_SIZE: usize = 65;

/// A buffer of [`REPORT_BUFFER_SIZE`] zero bytes.
pub fn report_buffer() -> (buf: Vec<u8>)
    ensures
        buf@ == Seq::new(REPORT_BUFFER_SIZE as nat, |i: int| 0u8),
{
    let mut buf: Vec<u8> = Vec::new();
    let mut i: usize = 0;
    while i < REPORT_BUFFER_SIZE
        invariant
            i <= REPORT_BUFFER_SIZE,
            buf@ == Seq::new(i as nat, |j: int| 0u8),
        decreases REPORT_BUFFER_SIZE - i,
    {
        buf.push(0u8);
        assert(buf@ =~= Seq::new((i + 1) as nat, |j: int| 0u8));
        i = i + 1;
    }
    buf
}

/// Completes a write: a failure of the platform is reported as `IoError`
/// with its diagnostic, anything else is success.
pub fn finish_write(outcome: Result<usize, String>) -> (r: Result<(), SessionError>)
    ensures
        match outcome {
            Ok(_) => r.is_ok(),
            Err(text) => r matches Err(e) && e@ == SessionErrorView::IoError(text@),
        },
{
    match outcome {
        Ok(_) => Ok(()),
        Err(text) => Err(SessionError::IoError(text)),
    }
}

/// Completes a read into `buf`: the bytes that the platform produced, no
/// more and no fewer, or `IoError` with the platform's diagnostic.
pub fn finish_read(buf: &[u8], outcome: Result<usize, String>) -> (r: Result<Vec<u8>, SessionError>)
    ensures
        match outcome {
            Ok(count) => r matches Ok(data) && data@ == produced_bytes(buf@, count),
            Err(text) => r matches Err(e) && e@ == SessionErrorView::IoError(text@),
        },
{
    match outcome {
        Ok(count) => Ok(copy_produced(buf, count)),
        Err(text) => Err(SessionError::IoError(text)),
    }
}

} // verus!
