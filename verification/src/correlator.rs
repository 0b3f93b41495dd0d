//! Request/response correlation.
//!
//! Every outgoing request is assigned a fresh correlation token and recorded
//! as a [`PendingRequest`] with a deadline. Inbound datagrams are matched to
//! pending requests by token: a match resolves exactly that request and
//! removes it from the table; a datagram whose token matches nothing is
//! discarded, which is an expected event (a duplicate, a stray broadcast
//! reply, or a reply to an already-timed-out request), not an error.

use vstd::prelude::*;

use crate::error::LifxError;
use crate::message::{DeviceAddr, Message};
use crate::seqsel::{lemma_selected_in_source, selected};

verus! {

/// One outstanding request: its correlation token, where it went, and when
/// it was created and will expire.
#[derive(Clone, Copy, Debug, PartialEq, Eq, Structural)]
pub struct PendingRequest {
    pub token: u64,
    pub addr: DeviceAddr,
    pub created_at: u64,
    pub deadline: u64,
}

/// An inbound datagram, decoded far enough to read its correlation token.
pub struct Reply {
    pub token: u64,
    pub body: Message,
}

/// A pending request resolved by a matching reply: the request's record and
/// the reply's payload.
pub struct Resolved {
    pub pending: PendingRequest,
    pub body: Message,
}

/// Truth of "some pending request in `s` carries token `t`".
pub open spec fn has_token(s: Seq<PendingRequest>, t: u64) -> bool {
    exists|i: int| 0 <= i < s.len() && (#[trigger] s[i]).token == t
}

/// Truth of "`p` is still live at time `now`": a request expires at the
/// first instant that is not strictly before its deadline.
pub open spec fn live_at(p: PendingRequest, now: u64) -> bool {
    now < p.deadline
}

/// Truth of "some pending request in `s` carries token `t` and is still
/// live at `now`".
pub open spec fn has_live_token(s: Seq<PendingRequest>, t: u64, now: u64) -> bool {
    exists|i: int| 0 <= i < s.len() && (#[trigger] s[i]).token == t && live_at(s[i], now)
}

/// Truth of "no two pending requests in `s` share a token".
pub open spec fn tokens_distinct(s: Seq<PendingRequest>) -> bool {
    forall|i: int, j: int|
        0 <= i < s.len() && 0 <= j < s.len() && i != j ==> (#[trigger] s[i]).token != (
        #[trigger] s[j]).token
}

/// Truth of "every token in `s` lies strictly below `bound`".
pub open spec fn tokens_below(s: Seq<PendingRequest>, bound: u64) -> bool {
    forall|i: int| 0 <= i < s.len() ==> (#[trigger] s[i]).token < bound
}

/// Tracks outstanding requests and matches inbound replies to them.
///
/// Tokens come from a monotonically increasing counter, so a token value is
/// never handed out twice while the counter has room; the table therefore
/// holds at most one pending request per token, and a reply resolves at most
/// one request.
pub struct Correlator {
    next_token: u64,
    pending: Vec<PendingRequest>,
}

impl View for Correlator {
    type V = Seq<PendingRequest>;

    closed spec fn view(&self) -> Seq<PendingRequest> {
        self.pending@
    }
}

impl Correlator {
    /// The next token the counter will hand out.
    pub closed spec fn next_token_spec(self) -> u64 {
        self.next_token
    }

    /// Well-formedness: every pending token was handed out by the counter,
    /// so all tokens lie below it and no two pending requests share one.
    pub open spec fn wf(self) -> bool {
        &&& tokens_below(self@, self.next_token_spec())
        &&& tokens_distinct(self@)
    }

    /// An empty table whose counter starts at zero.
    pub fn new() -> (c: Self)
        ensures
            c.wf(),
            c@ =~= Seq::<PendingRequest>::empty(),
            c.next_token_spec() == 0,
    {
        Correlator { next_token: 0, pending: Vec::new() }
    }

    /// Records a new outstanding request aimed at `addr`, created at `now`
    /// with deadline `now + timeout`, under a fresh token, and returns that
    /// token.
    ///
    /// The token is the counter's current value, strictly above every token
    /// handed out before, so it cannot collide with the token of any live
    /// or already-expired request.
    pub fn begin_request(&mut self, addr: DeviceAddr, now: u64, timeout: u64) -> (token: u64)
        requires
            old(self).wf(),
            old(self).next_token_spec() < u64::MAX,
            now + timeout <= u64::MAX,
        ensures
            final(self).wf(),
            token == old(self).next_token_spec(),
            final(self).next_token_spec() == token + 1,
            !has_token(old(self)@, token),
            final(self)@ =~= old(self)@.push(
                PendingRequest { token, addr, created_at: now, deadline: (now + timeout) as u64 },
            ),
    {
        let token = self.next_token;
        self.next_token = self.next_token + 1;
        let deadline = now + timeout;
        self.pending.push(PendingRequest { token, addr, created_at: now, deadline });
        proof {
            assert forall|i: int| 0 <= i < self@.len() implies (#[trigger] self@[i]).token
                < self.next_token_spec() by {
                if i < old(self)@.len() {
                    assert(self@[i] == old(self)@[i]);
                    assert(old(self)@[i].token < old(self).next_token_spec());
                }
            }
            assert forall|i: int, j: int|
                0 <= i < self@.len() && 0 <= j < self@.len() && i != j implies (
            #[trigger] self@[i]).token != (#[trigger] self@[j]).token by {
                if i < old(self)@.len() && j < old(self)@.len() {
                    assert(old(self)@[i].token != old(self)@[j].token);
                } else if i < old(self)@.len() {
                    assert(old(self)@[i].token < token);
                } else if j < old(self)@.len() {
                    assert(old(self)@[j].token < token);
                }
            }
            assert forall|i: int| 0 <= i < old(self)@.len() implies (#[trigger] old(
                self,
            )@[i]).token != token by {
                assert(old(self)@[i].token < old(self).next_token_spec());
            }
        }
        token
    }

    /// Matches an inbound reply, received at `now`, to the pending request
    /// carrying its token.
    ///
    /// If a live request carries the token it is removed from the table and
    /// returned together with the reply's payload; each reply resolves at
    /// most one request, and only the one whose token it carries. If no
    /// pending request carries the token — or the one that does has already
    /// passed its deadline — the reply is discarded and the table is left
    /// unchanged: a stray or late datagram is not an error, and a reply
    /// arriving after its request's deadline never resolves anything, even
    /// before the expiry step has reported that request.
    pub fn on_datagram(&mut self, reply: Reply, now: u64) -> (r: Option<Resolved>)
        requires
            old(self).wf(),
        ensures
            final(self).wf(),
            final(self).next_token_spec() == old(self).next_token_spec(),
            r is Some <==> has_live_token(old(self)@, reply.token, now),
            match r {
                Some(res) => {
                    &&& res.pending.token == reply.token
                    &&& live_at(res.pending, now)
                    &&& res.body == reply.body
                    &&& exists|i: int|
                        0 <= i < old(self)@.len() && old(self)@[i] == res.pending
                            && final(self)@ =~= old(self)@.remove(i)
                },
                None => final(self)@ =~= old(self)@,
            },
    {
        let n = self.pending.len();
        let mut i: usize = 0;
        while i < n
            invariant
                n == self.pending.len(),
                i <= n,
                forall|k: int| 0 <= k < i ==> (#[trigger] self.pending@[k]).token != reply.token,
            ensures
                i <= n,
                forall|k: int| 0 <= k < i ==> (#[trigger] self.pending@[k]).token != reply.token,
                i < n ==> self.pending@[i as int].token == reply.token,
                i == n ==> !has_token(self.pending@, reply.token),
            decreases n - i,
        {
            if self.pending[i].token == reply.token {
                break ;
            }
            i = i + 1;
        }
        if i < n {
            if self.pending[i].deadline <= now {
                // The matching request's deadline has passed: the reply is
                // late. Leave the entry for the expiry step to report.
                proof {
                    assert forall|k: int|
                        0 <= k < self@.len() && (#[trigger] self@[k]).token
                            == reply.token implies !live_at(self@[k], now) by {
                        assert(k == i as int);
                    }
                }
                return None;
            }
            let pending = self.pending.remove(i);
            proof {
                assert(old(self)@[i as int] == pending);
                assert forall|a: int, b: int|
                    0 <= a < self@.len() && 0 <= b < self@.len() && a != b implies (
                #[trigger] self@[a]).token != (#[trigger] self@[b]).token by {
                    let a0: int = if a < i { a } else { a + 1 };
                    let b0: int = if b < i { b } else { b + 1 };
                    assert(self@[a] == old(self)@[a0]);
                    assert(self@[b] == old(self)@[b0]);
                }
                assert forall|a: int| 0 <= a < self@.len() implies (#[trigger] self@[a]).token
                    < self.next_token_spec() by {
                    let a0: int = if a < i { a } else { a + 1 };
                    assert(self@[a] == old(self)@[a0]);
                }
            }
            Some(Resolved { pending, body: reply.body })
        } else {
            None
        }
    }

    /// Removes every pending request whose deadline has arrived and reports
    /// them, in table order, as timed out.
    ///
    /// All requests that share an elapsed deadline are reported by the one
    /// expiry step at that deadline; none of them lingers for a later step.
    pub fn expire(&mut self, now: u64) -> (timed_out: Vec<PendingRequest>)
        requires
            old(self).wf(),
        ensures
            final(self).wf(),
            final(self).next_token_spec() == old(self).next_token_spec(),
            final(self)@ =~= selected(old(self)@, |p: PendingRequest| live_at(p, now)),
            timed_out@ =~= selected(old(self)@, |p: PendingRequest| !live_at(p, now)),
    {
        let ghost keep_pred = |p: PendingRequest| live_at(p, now);
        let ghost drop_pred = |p: PendingRequest| !live_at(p, now);
        let n = self.pending.len();
        let mut kept: Vec<PendingRequest> = Vec::new();
        let mut timed_out: Vec<PendingRequest> = Vec::new();
        let mut i: usize = 0;
        while i < n
            invariant
                n == self.pending.len(),
                i <= n,
                kept@ =~= selected(self.pending@.subrange(0, i as int), keep_pred),
                timed_out@ =~= selected(self.pending@.subrange(0, i as int), drop_pred),
                keep_pred == (|p: PendingRequest| live_at(p, now)),
                drop_pred == (|p: PendingRequest| !live_at(p, now)),
            decreases n - i,
        {
            let p = self.pending[i];
            proof {
                let pre = self.pending@.subrange(0, i as int);
                let cur = self.pending@.subrange(0, i + 1 as int);
                assert(cur.drop_last() =~= pre);
                assert(cur.last() == p);
            }
            if p.deadline <= now {
                timed_out.push(p);
            } else {
                kept.push(p);
            }
            i = i + 1;
        }
        proof {
            assert(self.pending@.subrange(0, n as int) =~= self.pending@);
            lemma_selected_in_source(self.pending@, keep_pred);
            let sel = selected(self.pending@, keep_pred);
            assert forall|a: int, b: int|
                0 <= a < sel.len() && 0 <= b < sel.len() && a != b implies (#[trigger] sel[a]).token
                != (#[trigger] sel[b]).token by {
                lemma_selected_two_sources(self.pending@, keep_pred, a, b);
            }
            assert forall|a: int| 0 <= a < sel.len() implies (#[trigger] sel[a]).token
                < self.next_token_spec() by {
                let i0 = choose|i0: int|
                    0 <= i0 < self.pending@.len() && self.pending@[i0] == sel[a];
                assert(self.pending@[i0].token < self.next_token_spec());
            }
        }
        self.pending = kept;
        timed_out
    }
}

/// The aggregated failures of one expiry step: every timed-out request's
/// token paired with the `Timeout` failure it must report to its caller —
/// a timeout is surfaced, never silently swallowed.
pub fn timeout_failures(timed_out: &Vec<PendingRequest>) -> (failures: Vec<(u64, LifxError)>)
    ensures
        failures@.len() == timed_out@.len(),
        forall|i: int|
            0 <= i < timed_out@.len() ==> #[trigger] failures@[i] == (
            timed_out@[i].token,
            LifxError::Timeout,
            ),
{
    let n = timed_out.len();
    let mut failures: Vec<(u64, LifxError)> = Vec::new();
    let mut i: usize = 0;
    while i < n
        invariant
            n == timed_out@.len(),
            i <= n,
            failures@.len() == i,
            forall|k: int|
                0 <= k < i ==> #[trigger] failures@[k] == (
                timed_out@[k].token,
                LifxError::Timeout,
                ),
        decreases n - i,
    {
        failures.push((timed_out[i].token, LifxError::Timeout));
        i = i + 1;
    }
    failures
}

/// Law: correlation is injective. In a well-formed table a token names at
/// most one pending request, so however many requests are outstanding at
/// once, a reply resolves only the request that sent its token, never
/// another's.
pub proof fn lemma_correlation_injective(c: Correlator, i: int, j: int)
    requires
        c.wf(),
        0 <= i < c@.len(),
        0 <= j < c@.len(),
        c@[i].token == c@[j].token,
    ensures
        i == j,
{
}

/// Law: a request resolves at most once. Resolving the pending request at
/// position `i` removes the only entry carrying its token, so no later
/// reply — duplicate or stray — and no expiry step can touch that request
/// again.
pub proof fn lemma_at_most_one_resolution(
    before: Seq<PendingRequest>,
    after: Seq<PendingRequest>,
    i: int,
    t: u64,
)
    requires
        tokens_distinct(before),
        0 <= i < before.len(),
        before[i].token == t,
        after =~= before.remove(i),
    ensures
        !has_token(after, t),
{
    assert forall|k: int| 0 <= k < after.len() implies (#[trigger] after[k]).token != t by {
        let k0: int = if k < i {
            k
        } else {
            k + 1
        };
        assert(after[k] == before[k0]);
    }
}

/// Law: an expiry step leaves nothing stale behind — every request still
/// pending afterwards is live at the step's instant, and every reported
/// request is not.
pub proof fn lemma_expire_leaves_only_live(
    s: Seq<PendingRequest>,
    kept: Seq<PendingRequest>,
    reported: Seq<PendingRequest>,
    now: u64,
)
    requires
        kept =~= selected(s, |p: PendingRequest| live_at(p, now)),
        reported =~= selected(s, |p: PendingRequest| !live_at(p, now)),
    ensures
        forall|k: int| 0 <= k < kept.len() ==> live_at(#[trigger] kept[k], now),
        forall|k: int| 0 <= k < reported.len() ==> !live_at(#[trigger] reported[k], now),
{
    lemma_selected_in_source(s, |p: PendingRequest| live_at(p, now));
    lemma_selected_in_source(s, |p: PendingRequest| !live_at(p, now));
}

/// Law: token values are not reused while the counter has room. A token
/// pending in some earlier state lies strictly below that state's counter,
/// and the counter never decreases, so every later allocation — which
/// returns the counter's value — yields a different token: a reply that
/// outlives its own request's deadline cannot name a request begun
/// afterwards.
pub proof fn lemma_no_token_reuse(earlier: Correlator, t: u64, later: Correlator)
    requires
        earlier.wf(),
        has_token(earlier@, t),
        earlier.next_token_spec() <= later.next_token_spec(),
    ensures
        t < later.next_token_spec(),
        t != later.next_token_spec(),
{
    let i = choose|i: int| 0 <= i < earlier@.len() && (#[trigger] earlier@[i]).token == t;
    assert(earlier@[i].token < earlier.next_token_spec());
}

/// Law: requests that share an elapsed deadline are all timed out by the
/// one expiry step at that deadline — the step reports every one of them
/// and leaves none pending, so concurrent requests with one timeout fail
/// together after that timeout, not one after another.
pub proof fn lemma_shared_deadline_all_expire(s: Seq<PendingRequest>, now: u64)
    requires
        forall|i: int| 0 <= i < s.len() ==> !live_at(#[trigger] s[i], now),
    ensures
        selected(s, |p: PendingRequest| !live_at(p, now)) =~= s,
        selected(s, |p: PendingRequest| live_at(p, now)) =~= Seq::<PendingRequest>::empty(),
    decreases s.len(),
{
    if s.len() > 0 {
        assert forall|i: int| 0 <= i < s.drop_last().len() implies !live_at(
            #[trigger] s.drop_last()[i],
            now,
        ) by {
            assert(s.drop_last()[i] == s[i]);
        }
        lemma_shared_deadline_all_expire(s.drop_last(), now);
    }
}

/// Two distinct positions of a selected subsequence come from two distinct
/// positions of the source, so distinct tokens in the source stay distinct
/// in the selection.
proof fn lemma_selected_two_sources(
    s: Seq<PendingRequest>,
    pred: spec_fn(PendingRequest) -> bool,
    a: int,
    b: int,
)
    requires
        tokens_distinct(s),
        0 <= a < selected(s, pred).len(),
        0 <= b < selected(s, pred).len(),
        a != b,
    ensures
        selected(s, pred)[a].token != selected(s, pred)[b].token,
    decreases s.len(),
{
    let sel = selected(s, pred);
    if s.len() > 0 {
        let sub = selected(s.drop_last(), pred);
        assert(tokens_distinct(s.drop_last())) by {
            assert forall|i: int, j: int|
                0 <= i < s.drop_last().len() && 0 <= j < s.drop_last().len() && i != j implies (
            #[trigger] s.drop_last()[i]).token != (#[trigger] s.drop_last()[j]).token by {
                assert(s.drop_last()[i] == s[i]);
                assert(s.drop_last()[j] == s[j]);
            }
        }
        if pred(s.last()) && (a == sel.len() - 1 || b == sel.len() - 1) {
            let k = if a == sel.len() - 1 {
                b
            } else {
                a
            };
            assert(sel[k] == sub[k]);
            lemma_selected_in_source(s.drop_last(), pred);
            let i0 = choose|i0: int|
                0 <= i0 < s.drop_last().len() && s.drop_last()[i0] == sub[k];
            assert(s[i0] == sel[k]);
            assert(s[i0].token != s[s.len() - 1].token);
        } else {
            assert(sel[a] == sub[a]);
            assert(sel[b] == sub[b]);
            lemma_selected_two_sources(s.drop_last(), pred, a, b);
        }
    }
}

} // verus!
