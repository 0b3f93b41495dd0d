//! Broadcast discovery: accumulate every distinct device that replies to
//! one "who is present" probe within a fixed window.
//!
//! Discovery expects a fan-in of many replies to one broadcast, so it does
//! not go through the correlator's one-pending-request-per-token model: it
//! keeps its own accumulation buffer. Devices may reply more than once
//! within the window; duplicates after the first are ignored, keyed by
//! device identity. A reply arriving once the window has elapsed is
//! dropped. Zero replies within the window is not an error: the result is
//! simply empty.

use vstd::prelude::*;

use crate::message::DeviceAddr;
use crate::registry::{has_id, ids_distinct, Device};

verus! {

/// One decoded reply to the discovery broadcast, with its arrival time.
#[derive(Clone, Copy, Debug, PartialEq, Eq, Structural)]
pub struct ProbeReply {
    pub id: u64,
    pub addr: DeviceAddr,
    pub at: u64,
}

/// The device a probe reply introduces: its identity and address, label
/// still unfetched.
pub open spec fn device_of(r: ProbeReply) -> Device {
    Device { id: r.id, addr: r.addr, label: None }
}

/// The device set one discovery window accumulates from `replies`,
/// processed in arrival order: a reply is kept exactly when it arrives
/// strictly before `window_end` and no earlier kept reply carried its
/// identity.
pub open spec fn discovered(replies: Seq<ProbeReply>, window_end: u64) -> Seq<Device>
    decreases replies.len(),
{
    if replies.len() == 0 {
        Seq::empty()
    } else {
        let prev = discovered(replies.drop_last(), window_end);
        let r = replies.last();
        if r.at < window_end && !has_id(prev, r.id) {
            prev.push(device_of(r))
        } else {
            prev
        }
    }
}

/// The accumulation buffer of one discovery window.
pub struct DiscoveryAccumulator {
    window_end: u64,
    found: Vec<Device>,
}

impl View for DiscoveryAccumulator {
    type V = Seq<Device>;

    closed spec fn view(&self) -> Seq<Device> {
        self.found@
    }
}

impl DiscoveryAccumulator {
    /// The instant at which the window elapses.
    pub closed spec fn window_end_spec(self) -> u64 {
        self.window_end
    }

    /// Well-formedness: the accumulated device identities are distinct.
    pub open spec fn wf(self) -> bool {
        ids_distinct(self@)
    }

    /// Opens a window of length `window` starting at `start`.
    pub fn begin(start: u64, window: u64) -> (acc: Self)
        requires
            start + window <= u64::MAX,
        ensures
            acc.wf(),
            acc@ =~= Seq::<Device>::empty(),
            acc.window_end_spec() == start + window,
    {
        DiscoveryAccumulator { window_end: start + window, found: Vec::new() }
    }

    /// Feeds one probe reply to the accumulator.
    ///
    /// The reply is kept exactly when it arrived strictly before the window
    /// elapsed and its identity is new; a late or duplicate reply changes
    /// nothing. Reports whether the reply was kept.
    pub fn on_reply(&mut self, reply: ProbeReply) -> (kept: bool)
        requires
            old(self).wf(),
        ensures
            final(self).wf(),
            final(self).window_end_spec() == old(self).window_end_spec(),
            kept == (reply.at < old(self).window_end_spec() && !has_id(old(self)@, reply.id)),
            kept ==> final(self)@ =~= old(self)@.push(device_of(reply)),
            !kept ==> final(self)@ =~= old(self)@,
    {
        if reply.at >= self.window_end {
            return false;
        }
        let n = self.found.len();
        let mut i: usize = 0;
        while i < n
            invariant
                n == self.found.len(),
                i <= n,
                forall|k: int| 0 <= k < i ==> (#[trigger] self.found@[k]).id != reply.id,
            ensures
                i <= n,
                forall|k: int| 0 <= k < i ==> (#[trigger] self.found@[k]).id != reply.id,
                i < n ==> self.found@[i as int].id == reply.id,
                i == n ==> !has_id(self.found@, reply.id),
            decreases n - i,
        {
            if self.found[i].id == reply.id {
                break ;
            }
            i = i + 1;
        }
        if i < n {
            false
        } else {
            self.found.push(Device { id: reply.id, addr: reply.addr, label: None });
            proof {
                assert forall|a: int, b: int|
                    0 <= a < self@.len() && 0 <= b < self@.len() && a != b implies (
                #[trigger] self@[a]).id != (#[trigger] self@[b]).id by {
                    if a < old(self)@.len() && b < old(self)@.len() {
                        assert(self@[a] == old(self)@[a]);
                        assert(self@[b] == old(self)@[b]);
                    } else if a < old(self)@.len() {
                        assert(self@[a] == old(self)@[a]);
                    } else if b < old(self)@.len() {
                        assert(self@[b] == old(self)@[b]);
                    }
                }
            }
            true
        }
    }

    /// Closes the window and yields the accumulated devices, in
    /// first-arrival order.
    pub fn into_devices(self) -> (devs: Vec<Device>)
        ensures
            devs@ =~= self@,
    {
        self.found
    }
}

/// One whole discovery window over the replies the transport collected, in
/// arrival order: the deduplicated set of devices that replied in time.
pub fn collect_window(start: u64, window: u64, replies: &Vec<ProbeReply>) -> (devs: Vec<Device>)
    requires
        start + window <= u64::MAX,
    ensures
        devs@ =~= discovered(replies@, (start + window) as u64),
        ids_distinct(devs@),
{
    let mut acc = DiscoveryAccumulator::begin(start, window);
    let n = replies.len();
    let mut i: usize = 0;
    while i < n
        invariant
            n == replies@.len(),
            i <= n,
            acc.wf(),
            acc.window_end_spec() == start + window,
            acc@ =~= discovered(replies@.subrange(0, i as int), (start + window) as u64),
        decreases n - i,
    {
        proof {
            let cur = replies@.subrange(0, i + 1 as int);
            assert(cur.drop_last() =~= replies@.subrange(0, i as int));
            assert(cur.last() == replies@[i as int]);
        }
        acc.on_reply(replies[i]);
        i = i + 1;
    }
    proof {
        assert(replies@.subrange(0, n as int) =~= replies@);
    }
    acc.into_devices()
}

/// Law: a device identity is in the discovery result exactly when some
/// reply carrying it arrived within the window — however many times it was
/// sent and in whatever order the replies came.
pub proof fn lemma_discovered_ids(replies: Seq<ProbeReply>, window_end: u64, id: u64)
    ensures
        has_id(discovered(replies, window_end), id) <==> exists|i: int|
            0 <= i < replies.len() && (#[trigger] replies[i]).at < window_end && replies[i].id
                == id,
    decreases replies.len(),
{
    if replies.len() > 0 {
        lemma_discovered_ids(replies.drop_last(), window_end, id);
        let prev = discovered(replies.drop_last(), window_end);
        let r = replies.last();
        if has_id(discovered(replies, window_end), id) {
            if !(r.at < window_end && !has_id(prev, r.id)) || id != r.id {
                assert(has_id(prev, id)) by {
                    if r.at < window_end && !has_id(prev, r.id) {
                        let k = choose|k: int|
                            0 <= k < discovered(replies, window_end).len() && (#[trigger] discovered(
                                replies,
                                window_end,
                            )[k]).id == id;
                        assert(discovered(replies, window_end)[k] == prev[k]);
                    }
                }
                let k = choose|k: int|
                    0 <= k < replies.drop_last().len() && (#[trigger] replies.drop_last()[k]).at
                        < window_end && replies.drop_last()[k].id == id;
                assert(replies[k].at < window_end && replies[k].id == id);
            } else {
                assert(replies[replies.len() - 1].at < window_end && replies[replies.len()
                    - 1].id == id);
            }
        }
        if exists|i: int|
            0 <= i < replies.len() && (#[trigger] replies[i]).at < window_end && replies[i].id
                == id {
            let i = choose|i: int|
                0 <= i < replies.len() && (#[trigger] replies[i]).at < window_end && replies[i].id
                    == id;
            if i < replies.len() - 1 {
                assert(replies.drop_last()[i].at < window_end && replies.drop_last()[i].id == id);
                assert(has_id(prev, id));
                if r.at < window_end && !has_id(prev, r.id) {
                    let k = choose|k: int| 0 <= k < prev.len() && (#[trigger] prev[k]).id == id;
                    assert(discovered(replies, window_end)[k].id == id);
                }
            } else {
                if !has_id(prev, r.id) {
                    let m = discovered(replies, window_end);
                    assert(m[m.len() - 1].id == id);
                }
            }
        }
    }
}

/// Law: the discovery result never holds the same device identity twice,
/// whatever the replies were.
pub proof fn lemma_discovered_distinct(replies: Seq<ProbeReply>, window_end: u64)
    ensures
        ids_distinct(discovered(replies, window_end)),
    decreases replies.len(),
{
    if replies.len() > 0 {
        lemma_discovered_distinct(replies.drop_last(), window_end);
        let prev = discovered(replies.drop_last(), window_end);
        let r = replies.last();
        if r.at < window_end && !has_id(prev, r.id) {
            assert forall|a: int, b: int|
                0 <= a < prev.len() + 1 && 0 <= b < prev.len() + 1 && a != b implies (
            #[trigger] prev.push(device_of(r))[a]).id != (#[trigger] prev.push(device_of(r))[b]).id by {
                if a < prev.len() && b < prev.len() {
                    assert(prev.push(device_of(r))[a] == prev[a]);
                    assert(prev.push(device_of(r))[b] == prev[b]);
                }
            }
        }
    }
}

/// Law: when every device sends exactly one reply within the window — the
/// replies are timely and their identities distinct — the result is one
/// device per reply, in arrival order, whatever that order was.
pub proof fn lemma_one_reply_each(replies: Seq<ProbeReply>, window_end: u64)
    requires
        forall|i: int| 0 <= i < replies.len() ==> (#[trigger] replies[i]).at < window_end,
        forall|i: int, j: int|
            0 <= i < replies.len() && 0 <= j < replies.len() && i != j ==> (
            #[trigger] replies[i]).id != (#[trigger] replies[j]).id,
    ensures
        discovered(replies, window_end) =~= replies.map_values(|r: ProbeReply| device_of(r)),
        discovered(replies, window_end).len() == replies.len(),
    decreases replies.len(),
{
    if replies.len() > 0 {
        let front = replies.drop_last();
        assert forall|i: int, j: int|
            0 <= i < front.len() && 0 <= j < front.len() && i != j implies (
        #[trigger] front[i]).id != (#[trigger] front[j]).id by {
            assert(front[i] == replies[i]);
            assert(front[j] == replies[j]);
        }
        lemma_one_reply_each(front, window_end);
        let prev = discovered(front, window_end);
        let r = replies.last();
        assert(!has_id(prev, r.id)) by {
            lemma_discovered_ids(front, window_end, r.id);
            if has_id(prev, r.id) {
                let i = choose|i: int|
                    0 <= i < front.len() && (#[trigger] front[i]).at < window_end && front[i].id
                        == r.id;
                assert(replies[i].id == replies[replies.len() - 1].id);
            }
        }
    }
}

/// Law: replies that all carry one identity and arrive within the window —
/// however many duplicates — yield that device exactly once, with the first
/// reply's address.
pub proof fn lemma_duplicates_collapse(replies: Seq<ProbeReply>, window_end: u64, id: u64)
    requires
        replies.len() > 0,
        forall|i: int| 0 <= i < replies.len() ==> (#[trigger] replies[i]).id == id,
        forall|i: int| 0 <= i < replies.len() ==> (#[trigger] replies[i]).at < window_end,
    ensures
        discovered(replies, window_end) =~= seq![device_of(replies[0])],
    decreases replies.len(),
{
    if replies.len() == 1 {
        assert(discovered(replies.drop_last(), window_end) =~= Seq::<Device>::empty());
    } else {
        let front = replies.drop_last();
        lemma_duplicates_collapse(front, window_end, id);
        let prev = discovered(front, window_end);
        assert(prev[0].id == id);
        assert(has_id(prev, replies.last().id));
        assert(front[0] == replies[0]);
    }
}

} // verus!
