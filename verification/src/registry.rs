//! The in-memory registry of discovered devices.
//!
//! A device's identity is its stable protocol-level id; its address and
//! label are transient. Two observations of the same physical device,
//! possibly with different address or label, are the same entity: the
//! registry keys on ids alone and keeps them unique, in discovery arrival
//! order. A device whose label fetch fails stays in the registry with its
//! label still unset; devices are never dropped during a session.

use vstd::prelude::*;

use crate::error::LifxError;
use crate::message::{DeviceAddr, Message};

verus! {

/// A discovered device: stable identity, current network address, and a
/// human-readable label once it has been fetched.
#[derive(Clone, Debug)]
pub struct Device {
    pub id: u64,
    pub addr: DeviceAddr,
    pub label: Option<String>,
}

/// Truth of "no two devices in `s` share an identity".
pub open spec fn ids_distinct(s: Seq<Device>) -> bool {
    forall|i: int, j: int|
        0 <= i < s.len() && 0 <= j < s.len() && i != j ==> (#[trigger] s[i]).id != (
        #[trigger] s[j]).id
}

/// Truth of "some device in `s` has identity `id`".
pub open spec fn has_id(s: Seq<Device>, id: u64) -> bool {
    exists|i: int| 0 <= i < s.len() && (#[trigger] s[i]).id == id
}

/// A label as contracts speak of it: the characters once fetched, or
/// nothing while the label is still unfetched.
pub open spec fn label_model(l: Option<String>) -> Option<Seq<char>> {
    match l {
        Some(s) => Some(s@),
        None => None,
    }
}

/// Two observations denote the same device exactly when their stable ids
/// are equal; address and label play no part in identity.
pub fn same_device(a: &Device, b: &Device) -> (r: bool)
    ensures
        r == (a.id == b.id),
{
    a.id == b.id
}

/// Two device lists agree when they have the same length and, position by
/// position, the same identity and the same label.
pub fn same_device_list(a: &Vec<Device>, b: &Vec<Device>) -> (r: bool)
    ensures
        r == (a@.len() == b@.len() && forall|i: int|
            0 <= i < a@.len() ==> (#[trigger] a@[i]).id == b@[i].id && label_model(a@[i].label)
                == label_model(b@[i].label)),
{
    if a.len() != b.len() {
        return false;
    }
    let n = a.len();
    let mut i: usize = 0;
    while i < n
        invariant
            n == a@.len(),
            n == b@.len(),
            i <= n,
            forall|k: int|
                0 <= k < i ==> (#[trigger] a@[k]).id == b@[k].id && label_model(a@[k].label)
                    == label_model(b@[k].label),
        decreases n - i,
    {
        if a[i].id != b[i].id {
            return false;
        }
        let labels_agree = match (&a[i].label, &b[i].label) {
            (Some(la), Some(lb)) => *la == *lb,
            (None, None) => true,
            _ => false,
        };
        if !labels_agree {
            return false;
        }
        i = i + 1;
    }
    true
}

/// Extracts the label from a label-request reply.
///
/// A request expects exactly one reply shape; any other shape is the
/// distinct `ProtocolMismatch` failure, reported as an ordinary result so
/// the caller decides whether it is fatal.
pub fn label_from_reply(reply: Message) -> (r: Result<String, LifxError>)
    ensures
        match reply {
            Message::StateLabel { label } => r == Ok::<String, LifxError>(label),
            _ => r == Err::<String, LifxError>(LifxError::ProtocolMismatch),
        },
{
    match reply {
        Message::StateLabel { label } => Ok(label),
        _ => Err(LifxError::ProtocolMismatch),
    }
}

/// Ordered collection of discovered devices, insertion order = discovery
/// arrival order, identities unique.
pub struct DeviceRegistry {
    devices: Vec<Device>,
}

impl View for DeviceRegistry {
    type V = Seq<Device>;

    closed spec fn view(&self) -> Seq<Device> {
        self.devices@
    }
}

impl DeviceRegistry {
    /// Well-formedness: device identities are unique within the registry.
    pub open spec fn wf(self) -> bool {
        ids_distinct(self@)
    }

    /// An empty registry.
    pub fn new() -> (r: Self)
        ensures
            r.wf(),
            r@ =~= Seq::<Device>::empty(),
    {
        DeviceRegistry { devices: Vec::new() }
    }

    /// A registry holding exactly the given devices, in the given order.
    pub fn from_devices(devices: Vec<Device>) -> (r: Self)
        requires
            ids_distinct(devices@),
        ensures
            r.wf(),
            r@ =~= devices@,
    {
        DeviceRegistry { devices }
    }

    /// How many devices the registry holds.
    pub fn len(&self) -> (n: usize)
        ensures
            n == self@.len(),
    {
        self.devices.len()
    }

    /// The device at `index`, or `OutOfRange` when `index` is at or past
    /// the registry's length. The only failure is the index misuse.
    pub fn lookup(&self, index: usize) -> (r: Result<&Device, LifxError>)
        ensures
            match r {
                Ok(d) => index < self@.len() && *d == self@[index as int],
                Err(e) => index >= self@.len() && e == LifxError::OutOfRange,
            },
    {
        if index < self.devices.len() {
            Ok(&self.devices[index])
        } else {
            Err(LifxError::OutOfRange)
        }
    }

    /// Records an observation of device `id` at `addr`.
    ///
    /// A new identity is appended with its label unset; an identity already
    /// present has its address refreshed in place, keeping its position and
    /// label — the same physical device stays one entry however often it is
    /// seen.
    pub fn observe(&mut self, id: u64, addr: DeviceAddr)
        requires
            old(self).wf(),
        ensures
            final(self).wf(),
            has_id(old(self)@, id) ==> exists|i: int|
                0 <= i < old(self)@.len() && (#[trigger] old(self)@[i]).id == id && final(self)@
                    =~= old(self)@.update(
                    i,
                    Device { id, addr, label: old(self)@[i].label },
                ),
            !has_id(old(self)@, id) ==> final(self)@ =~= old(self)@.push(
                Device { id, addr, label: None },
            ),
    {
        let n = self.devices.len();
        let mut i: usize = 0;
        while i < n
            invariant
                n == self.devices.len(),
                i <= n,
                forall|k: int| 0 <= k < i ==> (#[trigger] self.devices@[k]).id != id,
            ensures
                i <= n,
                forall|k: int| 0 <= k < i ==> (#[trigger] self.devices@[k]).id != id,
                i < n ==> self.devices@[i as int].id == id,
                i == n ==> !has_id(self.devices@, id),
            decreases n - i,
        {
            if self.devices[i].id == id {
                break ;
            }
            i = i + 1;
        }
        if i < n {
            self.devices[i].addr = addr;
            proof {
                lemma_update_keeps_ids_distinct(old(self)@, self@, i as int);
            }
        } else {
            self.devices.push(Device { id, addr, label: None });
            proof {
                lemma_push_fresh_keeps_ids_distinct(old(self)@, self@, id);
            }
        }
    }

    /// Sets the label of the device with identity `id`, if one is present,
    /// and reports whether it was. No other entry changes either way.
    pub fn set_label(&mut self, id: u64, label: String) -> (found: bool)
        requires
            old(self).wf(),
        ensures
            final(self).wf(),
            found == has_id(old(self)@, id),
            found ==> exists|i: int|
                0 <= i < old(self)@.len() && (#[trigger] old(self)@[i]).id == id && final(self)@
                    =~= old(self)@.update(
                    i,
                    Device { id, addr: old(self)@[i].addr, label: Some(label) },
                ),
            !found ==> final(self)@ =~= old(self)@,
    {
        let n = self.devices.len();
        let mut i: usize = 0;
        while i < n
            invariant
                n == self.devices.len(),
                i <= n,
                forall|k: int| 0 <= k < i ==> (#[trigger] self.devices@[k]).id != id,
            ensures
                i <= n,
                forall|k: int| 0 <= k < i ==> (#[trigger] self.devices@[k]).id != id,
                i < n ==> self.devices@[i as int].id == id,
                i == n ==> !has_id(self.devices@, id),
            decreases n - i,
        {
            if self.devices[i].id == id {
                break ;
            }
            i = i + 1;
        }
        if i < n {
            self.devices[i].label = Some(label);
            proof {
                lemma_update_keeps_ids_distinct(old(self)@, self@, i as int);
            }
            true
        } else {
            false
        }
    }

    /// Applies the outcome of one label request for device `id`.
    ///
    /// A reply of the expected shape sets the device's label. A reply of
    /// any other shape reports `ProtocolMismatch`; a failed request (most
    /// often `Timeout`) reports that failure. In every failure case the
    /// device is retained unchanged, its label still unset, rather than
    /// dropped — and the registry is never touched for an unknown id.
    pub fn absorb_label_outcome(&mut self, id: u64, outcome: Result<Message, LifxError>) -> (r:
        Result<(), LifxError>)
        requires
            old(self).wf(),
        ensures
            final(self).wf(),
            match outcome {
                Ok(Message::StateLabel { label }) => {
                    &&& r == Ok::<(), LifxError>(())
                    &&& (has_id(old(self)@, id) ==> exists|i: int|
                        0 <= i < old(self)@.len() && (#[trigger] old(self)@[i]).id == id
                            && final(self)@ =~= old(self)@.update(
                            i,
                            Device { id, addr: old(self)@[i].addr, label: Some(label) },
                        ))
                    &&& (!has_id(old(self)@, id) ==> final(self)@ =~= old(self)@)
                },
                Ok(_) => r == Err::<(), LifxError>(LifxError::ProtocolMismatch) && final(self)@
                    =~= old(self)@,
                Err(e) => r == Err::<(), LifxError>(e) && final(self)@ =~= old(self)@,
            },
    {
        match outcome {
            Ok(reply) => match label_from_reply(reply) {
                Ok(label) => {
                    self.set_label(id, label);
                    Ok(())
                },
                Err(e) => Err(e),
            },
            Err(e) => Err(e),
        }
    }
}

/// The failure one label-request outcome reports, if any: a reply of the
/// wrong shape is a `ProtocolMismatch`, a failed request keeps its own
/// failure, and a label reply is no failure.
pub open spec fn outcome_failure(o: Result<Message, LifxError>) -> Option<LifxError> {
    match o {
        Ok(Message::StateLabel { .. }) => None,
        Ok(_) => Some(LifxError::ProtocolMismatch),
        Err(e) => Some(e),
    }
}

/// The label one label-request outcome yields, if any.
pub open spec fn outcome_label(o: Result<Message, LifxError>) -> Option<Seq<char>> {
    match o {
        Ok(Message::StateLabel { label }) => Some(label@),
        _ => None,
    }
}

/// The first failure among the outcomes, in device order, if any.
pub open spec fn first_failure(outcomes: Seq<Result<Message, LifxError>>) -> Option<LifxError>
    decreases outcomes.len(),
{
    if outcomes.len() == 0 {
        None
    } else {
        match outcome_failure(outcomes.first()) {
            Some(e) => Some(e),
            None => first_failure(outcomes.drop_first()),
        }
    }
}

/// Builds the registry the startup task hands back: one entry per
/// discovered device, in discovery order, enriched with the outcome of
/// that device's label request.
///
/// A device whose label request failed — timed out, or replied in the
/// wrong shape — is retained with its label unset rather than dropped; the
/// first such failure is also reported beside the registry, as an ordinary
/// value the caller may act on rather than an abort.
pub fn populate_registry(devices: Vec<Device>, outcomes: &Vec<Result<Message, LifxError>>) -> (r: (
    DeviceRegistry,
    Option<LifxError>,
))
    requires
        ids_distinct(devices@),
        devices@.len() == outcomes@.len(),
    ensures
        r.0.wf(),
        r.0@.len() == devices@.len(),
        forall|i: int|
            0 <= i < devices@.len() ==> (#[trigger] r.0@[i]).id == devices@[i].id && r.0@[i].addr
                == devices@[i].addr && label_model(r.0@[i].label) == outcome_label(outcomes@[i]),
        r.1 == first_failure(outcomes@),
{
    let n = devices.len();
    let mut entries: Vec<Device> = Vec::new();
    let mut failure: Option<LifxError> = None;
    let mut i: usize = 0;
    proof {
        assert(outcomes@.subrange(0, n as int) =~= outcomes@);
    }
    while i < n
        invariant
            n == devices@.len(),
            n == outcomes@.len(),
            i <= n,
            entries@.len() == i,
            forall|k: int|
                0 <= k < i ==> (#[trigger] entries@[k]).id == devices@[k].id && entries@[k].addr
                    == devices@[k].addr && label_model(entries@[k].label) == outcome_label(
                    outcomes@[k],
                ),
            first_failure(outcomes@) == (match failure {
                Some(e) => Some(e),
                None => first_failure(outcomes@.subrange(i as int, n as int)),
            }),
        decreases n - i,
    {
        proof {
            let rest = outcomes@.subrange(i as int, n as int);
            assert(rest.first() == outcomes@[i as int]);
            assert(rest.drop_first() =~= outcomes@.subrange(i + 1 as int, n as int));
        }
        let label: Option<String> = match &outcomes[i] {
            Ok(Message::StateLabel { label }) => Some(label.clone()),
            Ok(_) => {
                if failure.is_none() {
                    failure = Some(LifxError::ProtocolMismatch);
                }
                None
            },
            Err(e) => {
                if failure.is_none() {
                    failure = Some(*e);
                }
                None
            },
        };
        entries.push(Device { id: devices[i].id, addr: devices[i].addr, label });
        i = i + 1;
    }
    proof {
        assert(outcomes@.subrange(n as int, n as int) =~= Seq::<
            Result<Message, LifxError>,
        >::empty());
        assert forall|a: int, b: int|
            0 <= a < entries@.len() && 0 <= b < entries@.len() && a != b implies (
        #[trigger] entries@[a]).id != (#[trigger] entries@[b]).id by {
            assert(entries@[a].id == devices@[a].id);
            assert(entries@[b].id == devices@[b].id);
        }
    }
    (DeviceRegistry { devices: entries }, failure)
}

/// Updating one entry without changing its id keeps registry ids distinct.
proof fn lemma_update_keeps_ids_distinct(before: Seq<Device>, after: Seq<Device>, i: int)
    requires
        ids_distinct(before),
        0 <= i < before.len(),
        after.len() == before.len(),
        after[i].id == before[i].id,
        forall|k: int| 0 <= k < before.len() && k != i ==> after[k] == before[k],
    ensures
        ids_distinct(after),
{
    assert forall|a: int, b: int|
        0 <= a < after.len() && 0 <= b < after.len() && a != b implies (#[trigger] after[a]).id != (
    #[trigger] after[b]).id by {
        assert(after[a].id == before[a].id);
        assert(after[b].id == before[b].id);
    }
}

/// Appending a device whose id is absent keeps registry ids distinct.
proof fn lemma_push_fresh_keeps_ids_distinct(before: Seq<Device>, after: Seq<Device>, id: u64)
    requires
        ids_distinct(before),
        !has_id(before, id),
        after.len() == before.len() + 1,
        after[before.len() as int].id == id,
        forall|k: int| 0 <= k < before.len() ==> after[k] == before[k],
    ensures
        ids_distinct(after),
{
    assert forall|a: int, b: int|
        0 <= a < after.len() && 0 <= b < after.len() && a != b implies (#[trigger] after[a]).id != (
    #[trigger] after[b]).id by {
        if a < before.len() && b < before.len() {
            assert(after[a].id == before[a].id);
            assert(after[b].id == before[b].id);
        } else if a < before.len() {
            assert(after[a].id == before[a].id);
            assert(before[a].id != id);
        } else {
            assert(after[b].id == before[b].id);
            assert(before[b].id != id);
        }
    }
}

} // verus!
