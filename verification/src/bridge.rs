//! The bridge's own view of itself and of its USB clickers: the self-info
//! shown by its UI, the permission report, and what each USB event becomes.

use vstd::prelude::*;
use vstd::string::*;
use crate::usb::{is_usb_phys, usb_phys};
use crate::bindings::{BindingTable, KeyAction, KeyUpOutcome, bound_action, device_index};
use crate::split::{chars_of, string_from_range};
use crate::text::{decimal, push_str, str_eq, to_owned_string, u64_to_decimal, views};

verus! {

/// How the bridge reaches the presentation machines.
#[derive(Debug, Clone, Copy, PartialEq, Eq, Structural)]
pub enum BridgeMode {
    /// Sends OSC straight to the desktop apps.
    Direct,
    /// Acts as a satellite of a Companion server.
    Satellite,
}

/// The lower-case name of a mode.
pub open spec fn mode_text(mode: BridgeMode) -> Seq<char> {
    match mode {
        BridgeMode::Direct => "direct"@,
        BridgeMode::Satellite => "satellite"@,
    }
}

/// `direct` or `satellite`.
pub fn mode_name(mode: BridgeMode) -> (r: String)
    ensures
        r@ == mode_text(mode),
{
    match mode {
        BridgeMode::Direct => to_owned_string("direct"),
        BridgeMode::Satellite => to_owned_string("satellite"),
    }
}

/// Compact self-description used by the bridge's own UI.
#[derive(Debug)]
pub struct BridgeInfo {
    pub bridge_id: String,
    pub bridge_name: String,
    pub feedback_port: u16,
    pub config_port: u16,
    pub mode: String,
    pub log_level: String,
    pub lan_ip: Option<String>,
    pub config_url: String,
}

/// The address of the configuration page: on the LAN address when there is
/// one, else on `localhost`.
pub open spec fn config_url_text(lan_ip: Option<Seq<char>>, port: u16) -> Seq<char> {
    let host = match lan_ip {
        Some(ip) => ip,
        None => "localhost"@,
    };
    "http://"@ + host + ":"@ + decimal(port as nat) + "/"@
}

/// `http://{ip}:{port}/`, or `http://localhost:{port}/` without an address.
pub fn config_url(lan_ip: Option<&str>, port: u16) -> (r: String)
    ensures
        r@ == config_url_text(
            match lan_ip {
                Some(ip) => Some(ip@),
                None => None,
            },
            port,
        ),
{
    let mut url = to_owned_string("http://");
    match lan_ip {
        Some(ip) => push_str(&mut url, ip),
        None => push_str(&mut url, "localhost"),
    }
    push_str(&mut url, ":");
    let digits = u64_to_decimal(port as u64);
    push_str(&mut url, digits.as_str());
    push_str(&mut url, "/");
    url
}

/// The self-info of a bridge with these settings, reachable at `lan_ip`.
pub fn bridge_info(
    bridge_id: String,
    bridge_name: String,
    feedback_port: u16,
    config_port: u16,
    mode: BridgeMode,
    log_level: String,
    lan_ip: Option<String>,
) -> (r: BridgeInfo)
    ensures
        r.bridge_id == bridge_id,
        r.bridge_name == bridge_name,
        r.feedback_port == feedback_port,
        r.config_port == config_port,
        r.mode@ == mode_text(mode),
        r.log_level == log_level,
        r.lan_ip == lan_ip,
        r.config_url@ == config_url_text(
            match lan_ip {
                Some(ip) => Some(ip@),
                None => None,
            },
            config_port,
        ),
{
    let url = match &lan_ip {
        Some(ip) => config_url(Some(ip.as_str()), config_port),
        None => config_url(None, config_port),
    };
    BridgeInfo {
        bridge_id,
        bridge_name,
        feedback_port,
        config_port,
        mode: mode_name(mode),
        log_level,
        lan_ip,
        config_url: url,
    }
}

/// Whether the app can read the USB input devices.
#[derive(Debug)]
pub struct UsbPermissionStatus {
    /// One or more USB input devices exist but cannot be read.
    pub access_denied: bool,
    /// How many cannot be read.
    pub count: usize,
    /// What fixes it.
    pub fix_command: String,
}

pub open spec fn fix_command_text() -> Seq<char> {
    "sudo usermod -aG input $USER"@
}

/// The report for `count` unreadable devices.
pub fn usb_permission_status(count: usize) -> (r: UsbPermissionStatus)
    ensures
        r.access_denied == (count > 0),
        r.count == count,
        r.fix_command@ == fix_command_text(),
{
    UsbPermissionStatus {
        access_denied: count > 0,
        count,
        fix_command: to_owned_string("sudo usermod -aG input $USER"),
    }
}

/// A USB device that can emit keys.
#[derive(Debug)]
pub struct UsbDeviceInfo {
    /// Stable id: the device's physical path.
    pub id: String,
    pub name: String,
    /// The event node it is read from.
    pub path: String,
    pub vendor_id: u16,
    pub product_id: u16,
    pub phys: String,
    pub is_perfect_cue: bool,
}

/// Which input devices the bridge reads: USB devices (by their `PHYS`,
/// see `usb_phys`) that can emit at least one key. The id is the physical
/// path; a device without a name is called `unknown`.
pub fn classify_device(
    name: Option<String>,
    path: String,
    vendor_id: u16,
    product_id: u16,
    phys: Option<String>,
    emits_keys: bool,
    is_perfect_cue: bool,
) -> (r: Option<UsbDeviceInfo>)
    ensures
        ({
            let p = match phys {
                Some(x) => x@,
                None => Seq::empty(),
            };
            if emits_keys && usb_phys(p) {
                r matches Some(info) && info.id@ == p && info.phys@ == p && info.name@ == match name {
                    Some(n) => n@,
                    None => "unknown"@,
                } && info.path == path && info.vendor_id == vendor_id && info.product_id
                    == product_id && info.is_perfect_cue == is_perfect_cue
            } else {
                r is None
            }
        }),
{
    if !emits_keys {
        return None;
    }
    let phys = match phys {
        Some(x) => x,
        None => String::new(),
    };
    if !is_usb_phys(phys.as_str()) {
        return None;
    }
    let name = match name {
        Some(n) => n,
        None => to_owned_string("unknown"),
    };
    Some(
        UsbDeviceInfo {
            id: to_owned_string(phys.as_str()),
            name,
            path,
            vendor_id,
            product_id,
            phys,
            is_perfect_cue,
        },
    )
}

/// What the USB layer reports.
#[derive(Debug)]
pub enum UsbEvent {
    Connected(UsbDeviceInfo),
    Disconnected { device_id: String },
    AccessDenied { count: usize },
    KeyUp { device_id: String, key: String },
}

/// What the bridge reports to its UI.
#[derive(Debug)]
pub enum BridgeEvent {
    UsbConnected(UsbDeviceInfo),
    UsbDisconnected { device_id: String },
    UsbAccessDenied { count: usize },
    RegistrationDetected { device_id: String, action: String, key: String },
}

/// What the bridge does with one USB event.
#[derive(Debug)]
pub enum UsbEventStep {
    /// Tell the UI.
    Notify(BridgeEvent),
    /// Send `action` by OSC to `host:port`.
    Send { action: KeyAction, host: String, port: u16 },
    /// Nothing to do.
    Ignore,
}

impl BindingTable {
    /// Connections, disconnections and permission problems go to the UI; a
    /// key-up is offered for registration while `registration` names an
    /// action, and otherwise fires the key's bound action at the device's
    /// target when it has both.
    pub fn usb_event_step(&self, registration: Option<String>, event: UsbEvent) -> (r: UsbEventStep)
        ensures
            event matches UsbEvent::Connected(info) ==> (r matches UsbEventStep::Notify(
                BridgeEvent::UsbConnected(i),
            ) && i == info),
            event matches UsbEvent::Disconnected { device_id } ==> (r matches UsbEventStep::Notify(
                BridgeEvent::UsbDisconnected { device_id: d },
            ) && d == device_id),
            event matches UsbEvent::AccessDenied { count } ==> (r matches UsbEventStep::Notify(
                BridgeEvent::UsbAccessDenied { count: c },
            ) && c == count),
            event matches UsbEvent::KeyUp { device_id, key } ==> {
                &&& registration matches Some(a) ==> (r matches UsbEventStep::Notify(
                    BridgeEvent::RegistrationDetected { device_id: d, action, key: k },
                ) && d == device_id && action == a && k == key)
                &&& registration is None ==> match device_index(self.devices@, device_id@) {
                    Some(i) => match (
                        bound_action(self.devices@[i].bindings@, key@),
                        self.devices@[i].target,
                    ) {
                        (Some(a), Some(t)) => r matches UsbEventStep::Send { action, host, port }
                            && action == a && host@ == t.host@ && port == t.port,
                        _ => r is Ignore,
                    },
                    None => r is Ignore,
                }
            },
    {
        match event {
            UsbEvent::Connected(info) => UsbEventStep::Notify(BridgeEvent::UsbConnected(info)),
            UsbEvent::Disconnected { device_id } => UsbEventStep::Notify(
                BridgeEvent::UsbDisconnected { device_id },
            ),
            UsbEvent::AccessDenied { count } => UsbEventStep::Notify(
                BridgeEvent::UsbAccessDenied { count },
            ),
            UsbEvent::KeyUp { device_id, key } => match self.on_key_up(registration, device_id, key) {
                KeyUpOutcome::Register { device_id, action, key } => UsbEventStep::Notify(
                    BridgeEvent::RegistrationDetected { device_id, action, key },
                ),
                KeyUpOutcome::Send { action, host, port } => UsbEventStep::Send { action, host, port },
                KeyUpOutcome::Ignore => UsbEventStep::Ignore,
            },
        }
    }
}


/// The ids of a list of devices, in order.
pub open spec fn device_ids(d: Seq<UsbDeviceInfo>) -> Seq<Seq<char>> {
    d.map_values(|x: UsbDeviceInfo| x.id@)
}

/// The ids among `found` that are neither in `known` nor earlier in
/// `found`, in the order first seen.
pub open spec fn fresh_ids(known: Seq<Seq<char>>, found: Seq<UsbDeviceInfo>) -> Seq<Seq<char>>
    decreases found.len(),
{
    if found.len() == 0 {
        Seq::empty()
    } else {
        let r = fresh_ids(known, found.drop_last());
        let id = found.last().id@;
        if (known + r).contains(id) {
            r
        } else {
            r.push(id)
        }
    }
}

/// The USB devices being read, and the ones listed as connected. A device
/// is listed from its first scan until its reader ends.
#[derive(Debug)]
pub struct DeviceTracker {
    /// Ids of the devices with a reader.
    pub reading: Vec<String>,
    /// The connected devices.
    pub devices: Vec<UsbDeviceInfo>,
}

impl DeviceTracker {
    /// No device has two readers.
    pub open spec fn wf(&self) -> bool {
        views(self.reading@).no_duplicates()
    }

    pub fn new() -> (r: Self)
        ensures
            r.wf(),
            r.reading@.len() == 0,
            r.devices@.len() == 0,
    {
        DeviceTracker { reading: Vec::new(), devices: Vec::new() }
    }

    /// A scan found `found`: each device not read yet gets a reader, is
    /// listed, and is reported connected, once, in the order found.
    pub fn on_scan(&mut self, found: Vec<UsbDeviceInfo>) -> (r: Vec<UsbEvent>)
        requires
            old(self).wf(),
        ensures
            final(self).wf(),
            views(final(self).reading@) == views(old(self).reading@) + fresh_ids(
                views(old(self).reading@),
                found@,
            ),
            device_ids(final(self).devices@) == device_ids(old(self).devices@) + fresh_ids(
                views(old(self).reading@),
                found@,
            ),
            r@.len() == fresh_ids(views(old(self).reading@), found@).len(),
            forall|i: int|
                0 <= i < r@.len() ==> (#[trigger] r@[i] matches UsbEvent::Connected(info) && info.id@
                    == fresh_ids(views(old(self).reading@), found@)[i]),
    {
        let ghost known = views(old(self).reading@);
        let ghost old_devices = device_ids(old(self).devices@);
        let ghost all = found@;
        let mut events: Vec<UsbEvent> = Vec::new();
        let mut rest = found;
        let mut stack: Vec<UsbDeviceInfo> = Vec::new();
        while rest.len() > 0
            invariant
                stack@.len() + rest@.len() == all.len(),
                rest@ == all.take(rest@.len() as int),
                forall|i: int| 0 <= i < stack@.len() ==> #[trigger] stack@[i] == all[all.len() - 1 - i],
            decreases rest.len(),
        {
            let d = rest.pop().unwrap();
            stack.push(d);
        }
        let mut k: usize = stack.len();
        while k > 0
            invariant
                k == stack@.len(),
                k <= all.len(),
                forall|i: int| 0 <= i < stack@.len() ==> #[trigger] stack@[i] == all[all.len() - 1 - i],
                views(self.reading@) == known + fresh_ids(known, all.take(all.len() - k)),
                views(self.reading@).no_duplicates(),
                device_ids(self.devices@) == old_devices + fresh_ids(known, all.take(all.len() - k)),
                events@.len() == fresh_ids(known, all.take(all.len() - k)).len(),
                forall|i: int|
                    0 <= i < events@.len() ==> (#[trigger] events@[i] matches UsbEvent::Connected(info)
                        && info.id@ == fresh_ids(known, all.take(all.len() - k))[i]),
            decreases k,
        {
            let d = stack.pop().unwrap();
            k = k - 1;
            let ghost n = all.len() - k;
            assert(d == all[n - 1]);
            assert(all.take(n).drop_last() =~= all.take(n - 1));
            assert(all.take(n).last() == d);
            let ghost before = fresh_ids(known, all.take(n - 1));
            let mut seen = false;
            let mut j: usize = 0;
            while j < self.reading.len()
                invariant
                    j <= self.reading@.len(),
                    seen == exists|q: int| 0 <= q < j && self.reading@[q]@ == d.id@,
                decreases self.reading@.len() - j,
            {
                if str_eq(self.reading[j].as_str(), d.id.as_str()) {
                    seen = true;
                }
                j = j + 1;
            }
            assert(seen == views(self.reading@).contains(d.id@)) by {
                if seen {
                    let q = choose|q: int| 0 <= q < j && self.reading@[q]@ == d.id@;
                    assert(views(self.reading@)[q] == d.id@);
                }
                if views(self.reading@).contains(d.id@) {
                    let q = choose|q: int| 0 <= q < views(self.reading@).len() && views(self.reading@)[q] == d.id@;
                    assert(self.reading@[q]@ == d.id@);
                }
            }
            if !seen {
                let ghost tv = views(self.reading@);
                let ghost dv = device_ids(self.devices@);
                let ghost ev = events@;
                self.reading.push(to_owned_string(d.id.as_str()));
                assert(views(self.reading@) =~= tv.push(d.id@));
                let id_copy = to_owned_string(d.id.as_str());
                let listed = UsbDeviceInfo {
                    id: id_copy,
                    name: to_owned_string(d.name.as_str()),
                    path: to_owned_string(d.path.as_str()),
                    vendor_id: d.vendor_id,
                    product_id: d.product_id,
                    phys: to_owned_string(d.phys.as_str()),
                    is_perfect_cue: d.is_perfect_cue,
                };
                self.devices.push(listed);
                assert(device_ids(self.devices@) =~= dv.push(d.id@));
                events.push(UsbEvent::Connected(d));
                assert(forall|i: int| 0 <= i < ev.len() ==> events@[i] == ev[i]);
                assert(known + before.push(d.id@) =~= (known + before).push(d.id@));
            }
        }
        assert(all.take(all.len() as int) =~= all);
        events
    }

    /// A device's reader ended: it leaves the list of connected devices and
    /// is reported disconnected.
    pub fn on_reader_exit(&mut self, id: String) -> (r: UsbEvent)
        requires
            old(self).wf(),
        ensures
            final(self).wf(),
            final(self).reading@ == old(self).reading@,
            device_ids(final(self).devices@) == device_ids(old(self).devices@).filter(
                |x: Seq<char>| x != id@,
            ),
            r matches UsbEvent::Disconnected { device_id } && device_id == id,
    {
        self.devices = without_device(&self.devices, id.as_str());
        UsbEvent::Disconnected { device_id: id }
    }

    /// The scan noticed a reader has ended: the device is no longer read
    /// nor listed, and is reported disconnected (again).
    pub fn on_reader_reaped(&mut self, id: String) -> (r: UsbEvent)
        requires
            old(self).wf(),
        ensures
            final(self).wf(),
            views(final(self).reading@) == views(old(self).reading@).filter(|x: Seq<char>| x != id@),
            device_ids(final(self).devices@) == device_ids(old(self).devices@).filter(
                |x: Seq<char>| x != id@,
            ),
            r matches UsbEvent::Disconnected { device_id } && device_id == id,
    {
        self.devices = without_device(&self.devices, id.as_str());
        let ghost before = views(self.reading@);
        let mut kept: Vec<String> = Vec::new();
        let mut i: usize = 0;
        while i < self.reading.len()
            invariant
                i <= self.reading@.len(),
                before == views(self.reading@),
                before.no_duplicates(),
                views(kept@) == before.take(i as int).filter(|x: Seq<char>| x != id@),
                forall|a: int| 0 <= a < kept@.len() ==> exists|b: int| 0 <= b < i && #[trigger] kept@[a]@ == before[b],
                views(kept@).no_duplicates(),
            decreases self.reading@.len() - i,
        {
            let ghost kv = views(kept@);
            assert(before.take(i + 1).drop_last() =~= before.take(i as int));
            if !str_eq(self.reading[i].as_str(), id.as_str()) {
                kept.push(to_owned_string(self.reading[i].as_str()));
                assert(views(kept@) =~= kv.push(before[i as int]));
                assert forall|a: int| 0 <= a < kept@.len() implies exists|b: int| 0 <= b < i + 1 && #[trigger] kept@[a]@ == before[b] by {
                    if a == kept@.len() - 1 {
                        assert(kept@[a]@ == before[i as int]);
                    } else {
                        assert(kept@[a]@ == kv[a]);
                    }
                }
                assert(views(kept@).no_duplicates()) by {
                    assert forall|a: int, b: int| 0 <= a < b < views(kept@).len() implies views(kept@)[a] != views(kept@)[b] by {
                        if b == views(kept@).len() - 1 {
                            let q = choose|q: int| 0 <= q < i && #[trigger] kept@[a]@ == before[q];
                            assert(before[q] != before[i as int]);
                        }
                    }
                }
            }
            proof {
                let t = before.take(i + 1);
                assert(t.filter(|x: Seq<char>| x != id@) == t.drop_last().filter(|x: Seq<char>| x != id@)
                    + if t.last() != id@ { seq![t.last()] } else { Seq::empty() }) by {
                    t.drop_last().lemma_filter_push(t.last(), |x: Seq<char>| x != id@);
                    assert(t.drop_last().push(t.last()) =~= t);
                }
                assert(views(kept@) =~= before.take(i + 1).filter(|x: Seq<char>| x != id@));
            }
            i = i + 1;
        }
        assert(before.take(before.len() as int) =~= before);
        self.reading = kept;
        UsbEvent::Disconnected { device_id: id }
    }
}

/// The devices other than `id`, in order (copies).
fn without_device(devices: &Vec<UsbDeviceInfo>, id: &str) -> (r: Vec<UsbDeviceInfo>)
    ensures
        device_ids(r@) == device_ids(devices@).filter(|x: Seq<char>| x != id@),
{
    let ghost all = device_ids(devices@);
    let mut kept: Vec<UsbDeviceInfo> = Vec::new();
    let mut i: usize = 0;
    while i < devices.len()
        invariant
            i <= devices@.len(),
            all == device_ids(devices@),
            device_ids(kept@) == all.take(i as int).filter(|x: Seq<char>| x != id@),
        decreases devices@.len() - i,
    {
        let d = &devices[i];
        let ghost kv = device_ids(kept@);
        assert(all[i as int] == d.id@);
        if !str_eq(d.id.as_str(), id) {
            kept.push(
                UsbDeviceInfo {
                    id: to_owned_string(d.id.as_str()),
                    name: to_owned_string(d.name.as_str()),
                    path: to_owned_string(d.path.as_str()),
                    vendor_id: d.vendor_id,
                    product_id: d.product_id,
                    phys: to_owned_string(d.phys.as_str()),
                    is_perfect_cue: d.is_perfect_cue,
                },
            );
            assert(device_ids(kept@) =~= kv.push(d.id@));
        }
        proof {
            let t = all.take(i + 1);
            t.drop_last().lemma_filter_push(t.last(), |x: Seq<char>| x != id@);
            assert(t.drop_last().push(t.last()) =~= t);
            assert(t.drop_last() =~= all.take(i as int));
            assert(device_ids(kept@) =~= t.filter(|x: Seq<char>| x != id@));
        }
        i = i + 1;
    }
    assert(all.take(all.len() as int) =~= all);
    kept
}


proof fn lemma_found_are_known(known: Seq<Seq<char>>, found: Seq<UsbDeviceInfo>)
    ensures
        forall|i: int| 0 <= i < found.len() ==> (known + fresh_ids(known, found)).contains(#[trigger] found[i].id@),
        found.len() > 0 ==> forall|x: Seq<char>| (known + fresh_ids(known, found.drop_last())).contains(x)
            ==> (known + fresh_ids(known, found)).contains(x),
    decreases found.len(),
{
    if found.len() > 0 {
        let f = found.drop_last();
        lemma_found_are_known(known, f);
        let r = fresh_ids(known, f);
        let id = found.last().id@;
        assert forall|x: Seq<char>| (known + r).contains(x) implies (known + fresh_ids(known, found)).contains(x) by {
            if !(known + r).contains(id) {
                let q = choose|q: int| 0 <= q < (known + r).len() && (known + r)[q] == x;
                assert((known + r.push(id))[q] == x);
            }
        }
        assert forall|i: int| 0 <= i < found.len() implies (known + fresh_ids(known, found)).contains(#[trigger] found[i].id@) by {
            if i < found.len() - 1 {
                assert(found[i] == f[i]);
                assert((known + r).contains(f[i].id@));
            } else {
                if !(known + r).contains(id) {
                    assert((known + r.push(id))[(known + r).len() as int] == id);
                }
            }
        }
    }
}

proof fn lemma_known_are_not_fresh(known: Seq<Seq<char>>, found: Seq<UsbDeviceInfo>)
    requires
        forall|i: int| 0 <= i < found.len() ==> known.contains(#[trigger] found[i].id@),
    ensures
        fresh_ids(known, found).len() == 0,
    decreases found.len(),
{
    if found.len() > 0 {
        let f = found.drop_last();
        assert forall|i: int| 0 <= i < f.len() implies known.contains(#[trigger] f[i].id@) by {
            assert(f[i] == found[i]);
        }
        lemma_known_are_not_fresh(known, f);
        assert(known + fresh_ids(known, f) =~= known);
        assert(known.contains(found[found.len() - 1].id@));
    }
}

/// A device is reported connected once: scanning the same devices again
/// reports nothing new.
pub proof fn rescan_reports_nothing(known: Seq<Seq<char>>, found: Seq<UsbDeviceInfo>)
    ensures
        fresh_ids(known + fresh_ids(known, found), found).len() == 0,
{
    lemma_found_are_known(known, found);
    lemma_known_are_not_fresh(known + fresh_ids(known, found), found);
}


/// What the bridge's HTTP configuration API serves.
#[derive(Debug, PartialEq, Eq)]
pub enum HttpRoute {
    StatusPage,
    Status,
    Peers,
    Feedback,
    GetGlobalConfig,
    SaveGlobalConfig,
    RegisteredDevices,
    SetDeviceTarget { slot: String },
}

/// The slot of `/devices/{slot}/target`: one non-empty path segment.
pub open spec fn target_slot(path: Seq<char>) -> Option<Seq<char>> {
    if path.len() > 16 && path.take(9) == "/devices/"@ && path.skip(path.len() - 7) == "/target"@ {
        let slot = path.subrange(9, path.len() - 7);
        if slot.len() > 0 && !slot.contains('/') {
            Some(slot)
        } else {
            None
        }
    } else {
        None
    }
}

/// The route a request goes to (`post` for POST, else GET), if any.
pub open spec fn route_for(post: bool, path: Seq<char>) -> Option<HttpRoute> {
    if !post {
        if path == "/"@ {
            Some(HttpRoute::StatusPage)
        } else if path == "/status"@ {
            Some(HttpRoute::Status)
        } else if path == "/peers"@ {
            Some(HttpRoute::Peers)
        } else if path == "/feedback"@ {
            Some(HttpRoute::Feedback)
        } else if path == "/config/global"@ {
            Some(HttpRoute::GetGlobalConfig)
        } else if path == "/devices/registered"@ {
            Some(HttpRoute::RegisteredDevices)
        } else {
            None
        }
    } else if path == "/config/global"@ {
        Some(HttpRoute::SaveGlobalConfig)
    } else {
        None
    }
}

/// Routes a request of the configuration API: a GET or POST (`post`) of
/// `path`. `None` is a 404.
pub fn route_request(post: bool, path: &str) -> (r: Option<HttpRoute>)
    ensures
        match target_slot(path@) {
            Some(slot) => if post {
                r matches Some(HttpRoute::SetDeviceTarget { slot: s }) && s@ == slot
            } else {
                r is None
            },
            None => r == route_for(post, path@),
        },
{
    proof {
        reveal_strlit("/");
        reveal_strlit("/status");
        reveal_strlit("/peers");
        reveal_strlit("/feedback");
        reveal_strlit("/config/global");
        reveal_strlit("/devices/registered");
        reveal_strlit("/devices/");
        reveal_strlit("/target");
        assert("/devices/"@.len() == 9 && "/target"@.len() == 7);
    }
    let v = chars_of(path);
    let n = v.len();
    if n > 16 {
        let head = string_from_range(&v, 0, 9);
        let tail = string_from_range(&v, n - 7, n);
        if str_eq(head.as_str(), "/devices/") && str_eq(tail.as_str(), "/target") {
            let mut ok = true;
            let mut i: usize = 9;
            while i < n - 7
                invariant
                    9 <= i <= n - 7,
                    n == v@.len(),
                    n > 16,
                    ok == !v@.subrange(9, i as int).contains('/'),
                decreases n - 7 - i,
            {
                proof {
                    let a = v@.subrange(9, i as int);
                    let b = a.push(v@[i as int]);
                    assert(v@.subrange(9, i + 1) =~= b);
                    assert(b.contains('/') <==> (a.contains('/') || v@[i as int] == '/')) by {
                        if a.contains('/') {
                            let k = choose|k: int| 0 <= k < a.len() && a[k] == '/';
                            assert(b[k] == '/');
                        }
                        if v@[i as int] == '/' {
                            assert(b[a.len() as int] == '/');
                        }
                        if b.contains('/') {
                            let k = choose|k: int| 0 <= k < b.len() && b[k] == '/';
                            if k < a.len() {
                                assert(a[k] == '/');
                            }
                        }
                    }
                }
                if v[i] == '/' {
                    ok = false;
                }
                i = i + 1;
            }
            assert(head@ =~= path@.take(9));
            assert(tail@ =~= path@.skip(n - 7));
            if ok {
                let slot = string_from_range(&v, 9, n - 7);
                assert(slot@.len() > 0);
                return if post {
                    Some(HttpRoute::SetDeviceTarget { slot })
                } else {
                    None
                };
            }
        }
    }
    if !post {
        if str_eq(path, "/") {
            Some(HttpRoute::StatusPage)
        } else if str_eq(path, "/status") {
            Some(HttpRoute::Status)
        } else if str_eq(path, "/peers") {
            Some(HttpRoute::Peers)
        } else if str_eq(path, "/feedback") {
            Some(HttpRoute::Feedback)
        } else if str_eq(path, "/config/global") {
            Some(HttpRoute::GetGlobalConfig)
        } else if str_eq(path, "/devices/registered") {
            Some(HttpRoute::RegisteredDevices)
        } else {
            None
        }
    } else if str_eq(path, "/config/global") {
        Some(HttpRoute::SaveGlobalConfig)
    } else {
        None
    }
}

} // verus!
