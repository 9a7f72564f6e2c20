//! The bridge's key bindings: which key of which USB clicker sends which
//! command to which desktop, how bindings are made and removed, and what a
//! key-up leads to.

use vstd::prelude::*;
use crate::text::{str_eq, to_owned_string, trim, trim_str};
use vstd::string::*;

verus! {

/// What a bound key does.
#[derive(Debug, Clone, Copy, PartialEq, Eq, Structural)]
pub enum KeyAction {
    Next,
    Prev,
}

/// `next` and `prev` name the two actions.
pub open spec fn action_named(name: Seq<char>) -> Option<KeyAction> {
    if name == "next"@ {
        Some(KeyAction::Next)
    } else if name == "prev"@ {
        Some(KeyAction::Prev)
    } else {
        None
    }
}

/// The action a registration mode names.
pub fn parse_key_action(name: &str) -> (r: Option<KeyAction>)
    ensures
        r == action_named(name@),
{
    if str_eq(name, "next") {
        Some(KeyAction::Next)
    } else if str_eq(name, "prev") {
        Some(KeyAction::Prev)
    } else {
        None
    }
}

/// Where a device's commands go.
#[derive(Debug)]
pub struct DeviceTarget {
    pub host: String,
    pub port: u16,
}

/// A clicker and its bindings.
#[derive(Debug)]
pub struct DeviceBindings {
    pub device_id: String,
    pub name: String,
    /// One action per key name.
    pub bindings: Vec<(String, KeyAction)>,
    pub target: Option<DeviceTarget>,
}

/// The index of the entry for key `k`, if any.
pub open spec fn key_index(b: Seq<(String, KeyAction)>, k: Seq<char>) -> Option<int>
    decreases b.len(),
{
    if b.len() == 0 {
        None
    } else if b.last().0@ == k {
        Some(b.len() - 1)
    } else {
        key_index(b.drop_last(), k)
    }
}

/// The index of the device with id `id`, if any.
pub open spec fn device_index(d: Seq<DeviceBindings>, id: Seq<char>) -> Option<int>
    decreases d.len(),
{
    if d.len() == 0 {
        None
    } else if d.last().device_id@ == id {
        Some(d.len() - 1)
    } else {
        device_index(d.drop_last(), id)
    }
}

proof fn lemma_key_index(b: Seq<(String, KeyAction)>, k: Seq<char>)
    ensures
        key_index(b, k) matches Some(i) ==> 0 <= i < b.len() && b[i].0@ == k,
        key_index(b, k) is None ==> forall|j: int| 0 <= j < b.len() ==> b[j].0@ != k,
    decreases b.len(),
{
    if b.len() > 0 {
        let t = b.drop_last();
        lemma_key_index(t, k);
        assert forall|j: int| 0 <= j < t.len() implies #[trigger] b[j] == t[j] by {}
    }
}

proof fn lemma_device_index(d: Seq<DeviceBindings>, id: Seq<char>)
    ensures
        device_index(d, id) matches Some(i) ==> 0 <= i < d.len() && d[i].device_id@ == id,
        device_index(d, id) is None ==> forall|j: int| 0 <= j < d.len() ==> d[j].device_id@ != id,
    decreases d.len(),
{
    if d.len() > 0 {
        let t = d.drop_last();
        lemma_device_index(t, id);
        assert forall|j: int| 0 <= j < t.len() implies #[trigger] d[j] == t[j] by {}
    }
}

/// The action bound to key `k`, if any.
pub open spec fn bound_action(b: Seq<(String, KeyAction)>, k: Seq<char>) -> Option<KeyAction> {
    match key_index(b, k) {
        Some(i) => Some(b[i].1),
        None => None,
    }
}

/// The bindings after binding `k` to `a`: replaced in place, or added.
pub open spec fn bound(b: Seq<(String, KeyAction)>, k: String, a: KeyAction) -> Seq<(String, KeyAction)> {
    match key_index(b, k@) {
        Some(i) => b.update(i, (b[i].0, a)),
        None => b.push((k, a)),
    }
}

fn find_key(b: &Vec<(String, KeyAction)>, k: &str) -> (r: Option<usize>)
    ensures
        match r {
            Some(i) => key_index(b@, k@) == Some(i as int),
            None => key_index(b@, k@) is None,
        },
{
    let mut i: usize = b.len();
    proof {
        assert(b@.take(i as int) =~= b@);
    }
    while i > 0
        invariant
            i <= b@.len(),
            key_index(b@, k@) == key_index(b@.take(i as int), k@),
        decreases i,
    {
        let ghost t = b@.take(i as int);
        assert(t.drop_last() =~= b@.take(i - 1));
        assert(t.last() == b@[i - 1]);
        if str_eq(b[i - 1].0.as_str(), k) {
            return Some(i - 1);
        }
        i = i - 1;
    }
    None
}

fn find_device(d: &Vec<DeviceBindings>, id: &str) -> (r: Option<usize>)
    ensures
        match r {
            Some(i) => device_index(d@, id@) == Some(i as int),
            None => device_index(d@, id@) is None,
        },
{
    let mut i: usize = d.len();
    proof {
        assert(d@.take(i as int) =~= d@);
    }
    while i > 0
        invariant
            i <= d@.len(),
            device_index(d@, id@) == device_index(d@.take(i as int), id@),
        decreases i,
    {
        let ghost t = d@.take(i as int);
        assert(t.drop_last() =~= d@.take(i - 1));
        assert(t.last() == d@[i - 1]);
        if str_eq(d[i - 1].device_id.as_str(), id) {
            return Some(i - 1);
        }
        i = i - 1;
    }
    None
}

/// Binds key `k` to `a` in `b`.
pub fn bind_key(b: &mut Vec<(String, KeyAction)>, k: String, a: KeyAction)
    ensures
        final(b)@ == bound(old(b)@, k, a),
{
    proof {
        lemma_key_index(b@, k@);
    }
    match find_key(b, k.as_str()) {
        Some(i) => {
            let (name, _) = b.remove(i);
            b.insert(i, (name, a));
            assert(b@ =~= old(b)@.update(i as int, (old(b)@[i as int].0, a)));
        },
        None => {
            b.push((k, a));
        },
    }
}

/// All bindings of the bridge, one entry per device.
#[derive(Debug)]
pub struct BindingTable {
    pub devices: Vec<DeviceBindings>,
}

/// What a key-up leads to.
#[derive(Debug)]
pub enum KeyUpOutcome {
    /// Registration mode is on: offer this key for the pending action.
    Register { device_id: String, action: String, key: String },
    /// The key is bound on a device with a target: send the action there.
    Send { action: KeyAction, host: String, port: u16 },
    /// Nothing to do.
    Ignore,
}

pub open spec fn device_not_found_message() -> Seq<char> {
    "device not found"@
}

impl BindingTable {
    /// No device bound.
    pub fn new() -> (r: Self)
        ensures
            r.devices@.len() == 0,
    {
        BindingTable { devices: Vec::new() }
    }

    /// Binds `key` on `device_id` to `action`; a device seen for the first
    /// time is added, named `device_name`, with no target.
    pub fn confirm_binding(&mut self, device_id: String, device_name: String, key: String, action: KeyAction)
        ensures
            match device_index(old(self).devices@, device_id@) {
                Some(i) => final(self).devices@.len() == old(self).devices@.len()
                    && final(self).devices@[i].bindings@ == bound(old(self).devices@[i].bindings@, key, action)
                    && final(self).devices@[i].device_id == old(self).devices@[i].device_id
                    && final(self).devices@[i].name == old(self).devices@[i].name
                    && final(self).devices@[i].target == old(self).devices@[i].target
                    && forall|j: int| 0 <= j < old(self).devices@.len() && j != i ==> final(self).devices@[j] == old(self).devices@[j],
                None => final(self).devices@.len() == old(self).devices@.len() + 1
                    && final(self).devices@.drop_last() == old(self).devices@
                    && final(self).devices@.last().device_id == device_id
                    && final(self).devices@.last().name == device_name
                    && final(self).devices@.last().target is None
                    && final(self).devices@.last().bindings@ == seq![(key, action)],
            },
    {
        proof {
            lemma_device_index(self.devices@, device_id@);
        }
        match find_device(&self.devices, device_id.as_str()) {
            Some(i) => {
                let mut dev = self.devices.remove(i);
                bind_key(&mut dev.bindings, key, action);
                self.devices.insert(i, dev);
            },
            None => {
                let mut bindings = Vec::new();
                bindings.push((key, action));
                self.devices.push(
                    DeviceBindings { device_id, name: device_name, bindings, target: None },
                );
            },
        }
    }

    /// Removes the binding of `key` on `device_id`; a device left without
    /// bindings is removed too.
    pub fn remove_binding(&mut self, device_id: &str, key: &str)
        ensures
            match device_index(old(self).devices@, device_id@) {
                Some(i) => match key_index(old(self).devices@[i].bindings@, key@) {
                    Some(k) => if old(self).devices@[i].bindings@.len() == 1 {
                        final(self).devices@ == old(self).devices@.remove(i)
                    } else {
                        final(self).devices@.len() == old(self).devices@.len()
                            && final(self).devices@[i].bindings@ == old(self).devices@[i].bindings@.remove(k)
                            && final(self).devices@[i].device_id == old(self).devices@[i].device_id
                            && final(self).devices@[i].target == old(self).devices@[i].target
                            && forall|j: int| 0 <= j < old(self).devices@.len() && j != i ==> final(self).devices@[j] == old(self).devices@[j]
                    },
                    None => if old(self).devices@[i].bindings@.len() == 0 {
                        final(self).devices@ == old(self).devices@.remove(i)
                    } else {
                        final(self).devices@ == old(self).devices@
                    },
                },
                None => final(self).devices@ == old(self).devices@,
            },
    {
        proof {
            lemma_device_index(self.devices@, device_id@);
        }
        match find_device(&self.devices, device_id) {
            Some(i) => {
                let mut dev = self.devices.remove(i);
                proof {
                    lemma_key_index(dev.bindings@, key@);
                }
                match find_key(&dev.bindings, key) {
                    Some(k) => {
                        dev.bindings.remove(k);
                    },
                    None => {},
                }
                if dev.bindings.len() > 0 {
                    self.devices.insert(i, dev);
                    assert(self.devices@.len() == old(self).devices@.len());
                }
                proof {
                    if key_index(old(self).devices@[i as int].bindings@, key@) is None
                        && old(self).devices@[i as int].bindings@.len() > 0 {
                        assert(self.devices@ =~= old(self).devices@);
                    }
                }
            },
            None => {},
        }
    }

    /// Sets or clears where a device's commands go.
    pub fn set_device_target(&mut self, device_id: &str, target: Option<DeviceTarget>) -> (r: Result<(), String>)
        ensures
            match device_index(old(self).devices@, device_id@) {
                Some(i) => r is Ok && final(self).devices@.len() == old(self).devices@.len()
                    && final(self).devices@[i].target == target
                    && final(self).devices@[i].bindings == old(self).devices@[i].bindings
                    && final(self).devices@[i].device_id == old(self).devices@[i].device_id
                    && forall|j: int| 0 <= j < old(self).devices@.len() && j != i ==> final(self).devices@[j] == old(self).devices@[j],
                None => (r matches Err(e) && e@ == device_not_found_message())
                    && final(self).devices@ == old(self).devices@,
            },
    {
        proof {
            lemma_device_index(self.devices@, device_id@);
        }
        match find_device(&self.devices, device_id) {
            Some(i) => {
                let mut dev = self.devices.remove(i);
                dev.target = target;
                self.devices.insert(i, dev);
                Ok(())
            },
            None => Err(to_owned_string("device not found")),
        }
    }

    /// The action and target of `key` on `device_id`, when both exist.
    pub fn resolve(&self, device_id: &str, key: &str) -> (r: Option<(KeyAction, String, u16)>)
        ensures
            match device_index(self.devices@, device_id@) {
                Some(i) => match (bound_action(self.devices@[i].bindings@, key@), self.devices@[i].target) {
                    (Some(a), Some(t)) => r matches Some((ra, h, p)) && ra == a && h@ == t.host@ && p == t.port,
                    _ => r is None,
                },
                None => r is None,
            },
    {
        proof {
            lemma_device_index(self.devices@, device_id@);
        }
        match find_device(&self.devices, device_id) {
            None => None,
            Some(i) => {
                let dev = &self.devices[i];
                proof {
                    lemma_key_index(dev.bindings@, key@);
                }
                let action = match find_key(&dev.bindings, key) {
                    Some(k) => dev.bindings[k].1,
                    None => return None,
                };
                match &dev.target {
                    Some(t) => Some((action, t.host.clone(), t.port)),
                    None => None,
                }
            },
        }
    }

    /// What a key-up from `device_id` leads to: while registration mode
    /// names an action, the key is offered for it; otherwise the bound
    /// action goes to the device's target, if there are both.
    pub fn on_key_up(&self, registration: Option<String>, device_id: String, key: String) -> (r: KeyUpOutcome)
        ensures
            registration matches Some(a) ==> (r matches KeyUpOutcome::Register { device_id: d, action, key: k }
                && d == device_id && action == a && k == key),
            registration is None ==> match device_index(self.devices@, device_id@) {
                Some(i) => match (bound_action(self.devices@[i].bindings@, key@), self.devices@[i].target) {
                    (Some(a), Some(t)) => r matches KeyUpOutcome::Send { action, host, port }
                        && action == a && host@ == t.host@ && port == t.port,
                    _ => r is Ignore,
                },
                None => r is Ignore,
            },
    {
        match registration {
            Some(action) => KeyUpOutcome::Register { device_id, action, key },
            None => match self.resolve(device_id.as_str(), key.as_str()) {
                Some((action, host, port)) => KeyUpOutcome::Send { action, host, port },
                None => KeyUpOutcome::Ignore,
            },
        }
    }
}

pub open spec fn empty_name_message() -> Seq<char> {
    "Bridge name cannot be empty"@
}

/// Checks a new bridge name: it must not be blank.
pub fn validate_bridge_name(name: &str) -> (r: Result<(), String>)
    ensures
        r is Ok <==> trim(name@).len() > 0,
        r matches Err(e) ==> e@ == empty_name_message(),
{
    if trim_str(name).unicode_len() == 0 {
        Err(to_owned_string("Bridge name cannot be empty"))
    } else {
        Ok(())
    }
}

} // verus!
