//! Continuous device monitoring: which ZSA devices are connected, and the
//! connect/disconnect events reported for them.
//!
//! The USB hotplug stream is read elsewhere; this module decides, for each
//! observed change, what is recorded and which event is reported.

use std::sync::mpsc::Receiver;

use nusb::DeviceId;
use vstd::prelude::*;
use vstd::string::StringExecFns;

use crate::ids::{self, BootloaderKind, Keyboard};

verus! {

#[verifier::external_type_specification]
#[verifier::external_body]
pub struct ExDeviceId(DeviceId);

#[verifier::external_type_specification]
#[verifier::external_body]
#[verifier::reject_recursive_types(T)]
pub struct ExReceiver<T>(Receiver<T>);

/// Events emitted by the device monitor.
#[derive(Debug)]
pub enum DeviceEvent {
    /// A ZSA keyboard was connected in normal mode.
    KeyboardConnected { keyboard: Keyboard, serial: String, pid: u16 },
    /// A ZSA keyboard was disconnected.
    KeyboardDisconnected,
    /// A bootloader device appeared.
    BootloaderConnected { keyboard: Option<Keyboard>, kind: BootloaderKind, vid: u16, pid: u16 },
    /// A bootloader device was disconnected.
    BootloaderDisconnected,
}

/// What a recorded device was when it was connected.
#[derive(Debug, Clone, Copy, PartialEq, Eq, Structural)]
pub enum TrackedDevice {
    Keyboard,
    Bootloader,
}

/// `nusb::DeviceId`'s `==`. The type derives `PartialEq` over its plain
/// fields, so two ids compare equal exactly when they are the same value.
#[verifier::external_body]
fn device_ids_equal(a: &DeviceId, b: &DeviceId) -> (r: bool)
    ensures
        r == (*a == *b),
{
    *a == *b
}

/// What identifies a connected USB device while it stays connected.
pub trait DeviceKey: Sized {
    /// Whether two keys name the same device.
    fn same_device(&self, other: &Self) -> (r: bool)
        ensures
            r == (*self == *other),
    ;
}

impl DeviceKey for DeviceId {
    fn same_device(&self, other: &Self) -> (r: bool) {
        device_ids_equal(self, other)
    }
}

impl DeviceKey for u64 {
    fn same_device(&self, other: &Self) -> (r: bool) {
        *self == *other
    }
}

/// What a device with these USB ids is recorded as: a keyboard where it is a
/// ZSA keyboard in normal mode, else a bootloader where it is one.
pub open spec fn device_class(vid: u16, pid: u16) -> Option<TrackedDevice> {
    if ids::spec_identify_keyboard(vid, pid) is Some {
        Some(TrackedDevice::Keyboard)
    } else if ids::spec_identify_bootloader(vid, pid) is Some {
        Some(TrackedDevice::Bootloader)
    } else {
        None
    }
}

/// The serial number reported for a keyboard: the device's, or empty.
pub open spec fn serial_or_empty(serial: Option<&str>) -> Seq<char> {
    match serial {
        Some(s) => s@,
        None => Seq::empty(),
    }
}

/// Whether `e` is the event reported when a device with these ids and serial
/// number appears: a keyboard event for a ZSA keyboard, a bootloader event
/// (with the keyboard the bootloader tells of) for a bootloader, else none.
pub open spec fn is_connect_event(e: Option<DeviceEvent>, vid: u16, pid: u16, serial: Option<&str>) -> bool {
    match ids::spec_identify_keyboard(vid, pid) {
        Some(k) => e matches Some(DeviceEvent::KeyboardConnected { keyboard, serial: s, pid: p })
            && keyboard == k && p == pid && s@ == serial_or_empty(serial),
        None => match ids::spec_identify_bootloader(vid, pid) {
            Some(kind) => e == Some(DeviceEvent::BootloaderConnected {
                keyboard: ids::spec_keyboard_for_bootloader(vid, pid),
                kind,
                vid,
                pid,
            }),
            None => e is None,
        },
    }
}

/// The event reported when a recorded device of this class goes away.
pub open spec fn disconnect_event(class: Option<TrackedDevice>) -> Option<DeviceEvent> {
    match class {
        Some(TrackedDevice::Keyboard) => Some(DeviceEvent::KeyboardDisconnected),
        Some(TrackedDevice::Bootloader) => Some(DeviceEvent::BootloaderDisconnected),
        None => None,
    }
}

/// The event for a device that is connected, if it is a ZSA device.
pub fn connected_event(vid: u16, pid: u16, serial: Option<&str>) -> (r: Option<DeviceEvent>)
    ensures
        is_connect_event(r, vid, pid, serial),
{
    if let Some(keyboard) = ids::identify_keyboard(vid, pid) {
        let serial = match serial {
            Some(s) => String::from_str(s),
            None => String::new(),
        };
        Some(DeviceEvent::KeyboardConnected { keyboard, serial, pid })
    } else if let Some(kind) = ids::identify_bootloader(vid, pid) {
        let keyboard = ids::keyboard_for_bootloader(vid, pid);
        Some(DeviceEvent::BootloaderConnected { keyboard, kind, vid, pid })
    } else {
        None
    }
}

/// Where the first entry for `id` stands in a tracking list, if there is one.
pub open spec fn find_device<K>(seen: Seq<(K, TrackedDevice)>, id: K) -> Option<int>
    decreases seen.len(),
{
    if seen.len() == 0 {
        None
    } else if seen[0].0 == id {
        Some(0)
    } else {
        match find_device(seen.drop_first(), id) {
            Some(i) => Some(i + 1),
            None => None,
        }
    }
}

/// `find_device` gives the first entry for the device, or `None` where there is none.
pub proof fn lemma_find_device<K>(seen: Seq<(K, TrackedDevice)>, id: K)
    ensures
        match find_device(seen, id) {
            Some(i) => 0 <= i < seen.len() && seen[i].0 == id
                && forall|j: int| 0 <= j < i ==> seen[j].0 != id,
            None => forall|j: int| 0 <= j < seen.len() ==> seen[j].0 != id,
        },
    decreases seen.len(),
{
    if seen.len() > 0 && seen[0].0 != id {
        let rest = seen.drop_first();
        lemma_find_device(rest, id);
        assert forall|j: int| 1 <= j < seen.len() implies seen[j] == rest[j - 1] by {}
    }
}

/// The tracking list after a device with these ids appears.
pub open spec fn track_step<K>(seen: Seq<(K, TrackedDevice)>, id: K, vid: u16, pid: u16) -> Seq<(K, TrackedDevice)> {
    match device_class(vid, pid) {
        Some(class) => seen.push((id, class)),
        None => seen,
    }
}

/// The tracking list after device `id` goes away, and what it was recorded as.
pub open spec fn untrack_step<K>(seen: Seq<(K, TrackedDevice)>, id: K) -> (Seq<(K, TrackedDevice)>, Option<TrackedDevice>) {
    match find_device(seen, id) {
        Some(i) => (seen.remove(i), Some(seen[i].1)),
        None => (seen, None),
    }
}

/// The connected ZSA devices, by their USB device ids, with what each was
/// connected as, in the order they appeared.
pub struct DeviceTracker<K> {
    seen: Vec<(K, TrackedDevice)>,
}

impl<K> View for DeviceTracker<K> {
    type V = Seq<(K, TrackedDevice)>;

    closed spec fn view(&self) -> Seq<(K, TrackedDevice)> {
        self.seen@
    }
}

impl<K: DeviceKey> DeviceTracker<K> {
    /// A tracker that tracks nothing.
    pub fn new() -> (t: Self)
        ensures
            t@ == Seq::<(K, TrackedDevice)>::empty(),
    {
        DeviceTracker { seen: Vec::new() }
    }

    /// Record a device that was already connected when monitoring began.
    pub fn track(&mut self, id: K, vid: u16, pid: u16)
        ensures
            final(self)@ == track_step(old(self)@, id, vid, pid),
    {
        if ids::identify_keyboard(vid, pid).is_some() {
            self.seen.push((id, TrackedDevice::Keyboard));
        } else if ids::identify_bootloader(vid, pid).is_some() {
            self.seen.push((id, TrackedDevice::Bootloader));
        }
    }

    /// A device appeared: track it if it is a ZSA device, and report it.
    pub fn on_connected(&mut self, id: K, vid: u16, pid: u16, serial: Option<&str>) -> (r: Option<DeviceEvent>)
        ensures
            final(self)@ == track_step(old(self)@, id, vid, pid),
            is_connect_event(r, vid, pid, serial),
    {
        self.track(id, vid, pid);
        connected_event(vid, pid, serial)
    }

    /// A device went away: forget its first entry, and report what it was.
    /// Devices that were never recorded are ignored.
    pub fn on_disconnected(&mut self, id: K) -> (r: Option<DeviceEvent>)
        ensures
            final(self)@ == untrack_step(old(self)@, id).0,
            r == disconnect_event(untrack_step(old(self)@, id).1),
    {
        let n = self.seen.len();
        let mut i: usize = 0;
        proof {
            lemma_find_device(self.seen@, id);
        }
        while i < n
            invariant
                n == self.seen@.len(),
                self.seen@ == old(self)@,
                i <= n,
                forall|j: int| 0 <= j < i ==> self.seen@[j].0 != id,
            decreases n - i,
        {
            if self.seen[i].0.same_device(&id) {
                let ghost before = self.seen@;
                proof {
                    lemma_find_device(before, id);
                    if let Some(k) = find_device(before, id) {
                        assert(k == i);
                    }
                }
                let (_, kind) = self.seen.remove(i);
                return match kind {
                    TrackedDevice::Keyboard => Some(DeviceEvent::KeyboardDisconnected),
                    TrackedDevice::Bootloader => Some(DeviceEvent::BootloaderDisconnected),
                };
            }
            i = i + 1;
        }
        proof {
            lemma_find_device(self.seen@, id);
        }
        None
    }
}

/// Disconnecting a device undoes its connection: on a list that does not
/// track it, connecting and then disconnecting device `id` leaves the list as
/// it was, and reports the device as what it was connected as.
pub proof fn law_disconnect_undoes_connect<K>(seen: Seq<(K, TrackedDevice)>, id: K, vid: u16, pid: u16)
    requires
        find_device(seen, id) is None,
    ensures
        untrack_step(track_step(seen, id, vid, pid), id) == (seen, device_class(vid, pid)),
{
    lemma_find_device(seen, id);
    let after = track_step(seen, id, vid, pid);
    lemma_find_device(after, id);
    if let Some(class) = device_class(vid, pid) {
        assert(after[seen.len() as int].0 == id);
        assert(find_device(after, id) == Some(seen.len() as int));
        assert(after.remove(seen.len() as int) =~= seen);
    }
}

/// A device that is not recorded is reported as nothing when it goes away,
/// and the list is left unchanged.
pub proof fn law_untracked_disconnect_is_silent<K>(seen: Seq<(K, TrackedDevice)>, id: K)
    requires
        find_device(seen, id) is None,
    ensures
        untrack_step(seen, id) == (seen, None::<TrackedDevice>),
{
}

/// A disconnect that is reported removes exactly one entry, one for that device.
pub proof fn law_reported_disconnect_removes_one<K>(seen: Seq<(K, TrackedDevice)>, id: K)
    requires
        untrack_step(seen, id).1 is Some,
    ensures
        untrack_step(seen, id).0.len() == seen.len() - 1,
        exists|i: int| 0 <= i < seen.len() && seen[i].0 == id && untrack_step(seen, id).0 == seen.remove(i),
{
    lemma_find_device(seen, id);
}

/// A connected device is seen exactly when an event is reported for it,
/// and as the kind of device the event names.
pub proof fn law_connect_event_matches_tracking(e: Option<DeviceEvent>, vid: u16, pid: u16, serial: Option<&str>)
    requires
        is_connect_event(e, vid, pid, serial),
    ensures
        device_class(vid, pid) == Some(TrackedDevice::Keyboard) <==> e matches Some(DeviceEvent::KeyboardConnected { .. }),
        device_class(vid, pid) == Some(TrackedDevice::Bootloader) <==> e matches Some(DeviceEvent::BootloaderConnected { .. }),
        device_class(vid, pid) is None <==> e is None,
{
}

/// Monitors USB for ZSA device connect/disconnect events, as delivered by the
/// background watcher that feeds its channel.
pub struct DeviceMonitor {
    rx: Receiver<DeviceEvent>,
}

/// `Receiver::try_recv`: an event if one is waiting, else `None` (also when
/// the sending side is gone). Which of the two happens depends on the other
/// thread, so nothing is stated of the result.
#[verifier::external_body]
fn receive_waiting(rx: &Receiver<DeviceEvent>) -> Option<DeviceEvent> {
    rx.try_recv().ok()
}

/// `Receiver::recv`: blocks until an event arrives, `None` once the sending
/// side is gone. Which of the two happens depends on the other thread, so
/// nothing is stated of the result.
#[verifier::external_body]
fn receive_blocking(rx: &Receiver<DeviceEvent>) -> Option<DeviceEvent> {
    rx.recv().ok()
}

impl DeviceMonitor {
    /// The channel the monitor reads its events from.
    pub closed spec fn channel(&self) -> Receiver<DeviceEvent> {
        self.rx
    }

    /// A monitor reading the events that a watcher sends into this channel.
    pub fn from_receiver(rx: Receiver<DeviceEvent>) -> (m: Self)
        ensures
            m.channel() == rx,
    {
        DeviceMonitor { rx }
    }

    /// Try to receive the next event without blocking.
    pub fn try_recv(&self) -> Option<DeviceEvent> {
        receive_waiting(&self.rx)
    }

    /// Block until the next event is available.
    pub fn recv(&self) -> Option<DeviceEvent> {
        receive_blocking(&self.rx)
    }
}

} // verus!
