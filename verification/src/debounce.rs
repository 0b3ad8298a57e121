//! Trailing-edge debouncing of change notifications.
//!
//! The debouncer keeps at most one pending entry per path. Every arriving
//! notification for a path — first or repeated — re-arms that path's fire
//! time to `now + window`, so a path is handed out only once activity on it
//! has been quiet for the full window, and a burst of notifications
//! collapses into exactly one hand-out.

use vstd::prelude::*;
use crate::paths::{clone_path, path_eq};

verus! {

struct PendingEntry {
    path: Vec<Vec<u8>>,
    fire_at_ms: u64,
}

/// The pending-path map of event mode: path to fire-at time.
pub struct Debouncer {
    window_ms: u64,
    entries: Vec<PendingEntry>,
}

impl Debouncer {
    /// The debounce window, in milliseconds.
    pub closed spec fn window(self) -> u64 {
        self.window_ms
    }

    /// At most one pending entry per path.
    pub closed spec fn wf(self) -> bool {
        forall|i: int, j: int|
            0 <= i < j < self.entries@.len() ==> #[trigger] self.entries@[i].path.deep_view()
                != #[trigger] self.entries@[j].path.deep_view()
    }

    /// The path is pending.
    pub closed spec fn has(self, k: Seq<Seq<u8>>) -> bool {
        exists|i: int|
            0 <= i < self.entries@.len() && #[trigger] self.entries@[i].path.deep_view() == k
    }

    /// The pending path's fire-at time (meaningful only while `has` holds).
    pub closed spec fn fire_at(self, k: Seq<Seq<u8>>) -> u64 {
        let i = choose|i: int|
            0 <= i < self.entries@.len() && #[trigger] self.entries@[i].path.deep_view() == k;
        self.entries@[i].fire_at_ms
    }

    /// How many paths are pending.
    pub closed spec fn pending_count(self) -> nat {
        self.entries@.len() as nat
    }

    proof fn lemma_entry_fire(self, i: int)
        requires
            self.wf(),
            0 <= i < self.entries@.len(),
        ensures
            self.has(self.entries@[i].path.deep_view()),
            self.fire_at(self.entries@[i].path.deep_view()) == self.entries@[i].fire_at_ms,
    {
        let k = self.entries@[i].path.deep_view();
        assert(self.has(k));
        let j = choose|j: int|
            0 <= j < self.entries@.len() && #[trigger] self.entries@[j].path.deep_view() == k;
        assert(j == i);
    }

    /// A fresh debouncer with the given window and nothing pending.
    pub fn new(window_ms: u64) -> (d: Debouncer)
        ensures
            d.wf(),
            d.window() == window_ms,
            d.pending_count() == 0,
            forall|k: Seq<Seq<u8>>| !d.has(k),
    {
        Debouncer { window_ms, entries: Vec::new() }
    }

    /// One notification for `path` at time `now_ms`: the path's fire time
    /// becomes `now_ms + window`, whether or not it was already pending —
    /// the trailing edge — and every other pending path is untouched.
    #[verifier::rlimit(50)]
    pub fn notify(&mut self, path: &Vec<Vec<u8>>, now_ms: u64)
        requires
            old(self).wf(),
            now_ms + old(self).window() <= u64::MAX,
        ensures
            final(self).wf(),
            final(self).window() == old(self).window(),
            final(self).has(path.deep_view()),
            final(self).fire_at(path.deep_view()) == now_ms + old(self).window(),
            forall|k: Seq<Seq<u8>>|
                k != path.deep_view() ==> final(self).has(k) == old(self).has(k),
            forall|k: Seq<Seq<u8>>|
                k != path.deep_view() && old(self).has(k) ==> final(self).fire_at(k)
                    == old(self).fire_at(k),
    {
        let ghost pre = *self;
        let fire = now_ms + self.window_ms;
        let mut i: usize = 0;
        while i < self.entries.len()
            invariant
                *self == pre,
                pre == *old(self),
                pre.wf(),
                fire == now_ms + pre.window(),
                i <= self.entries@.len(),
                forall|j: int|
                    0 <= j < i ==> #[trigger] self.entries@[j].path.deep_view()
                        != path.deep_view(),
            decreases self.entries.len() - i,
        {
            if path_eq(&self.entries[i].path, path) {
                let e = self.entries.remove(i);
                self.entries.push(PendingEntry { path: e.path, fire_at_ms: fire });
                proof {
                    let oldv = pre.entries@;
                    let newv = self.entries@;
                    assert(newv[newv.len() - 1].path.deep_view() == path.deep_view());
                    assert forall|a: int, b: int|
                        0 <= a < b < newv.len() implies #[trigger] newv[a].path.deep_view()
                        != #[trigger] newv[b].path.deep_view() by {
                        let ra = if a < i { a } else { a + 1 };
                        assert(newv[a] == oldv[ra]);
                        if b < newv.len() - 1 {
                            let rb = if b < i { b } else { b + 1 };
                            assert(newv[b] == oldv[rb]);
                            assert(oldv[ra].path.deep_view() != oldv[rb].path.deep_view());
                        } else {
                            if ra < i {
                                assert(oldv[ra].path.deep_view() != oldv[i as int].path.deep_view());
                            } else {
                                assert(oldv[i as int].path.deep_view() != oldv[ra].path.deep_view());
                            }
                        }
                    }
                    assert(self.wf());
                    self.lemma_entry_fire(newv.len() - 1);
                    assert(newv[newv.len() - 1].fire_at_ms == fire);
                    assert(self.fire_at(path.deep_view()) == fire);
                    assert forall|k: Seq<Seq<u8>>| k != path.deep_view() implies (self.has(k)
                        == pre.has(k) && (pre.has(k) ==> self.fire_at(k) == pre.fire_at(k))) by {
                        if pre.has(k) {
                            let j = choose|j: int|
                                0 <= j < oldv.len() && #[trigger] oldv[j].path.deep_view() == k;
                            assert(j != i);
                            let nj = if j < i { j } else { j - 1 };
                            assert(newv[nj] == oldv[j]);
                            assert(self.has(k));
                            pre.lemma_entry_fire(j);
                            self.lemma_entry_fire(nj);
                        }
                        if self.has(k) {
                            let j = choose|j: int|
                                0 <= j < newv.len() && #[trigger] newv[j].path.deep_view() == k;
                            assert(j < newv.len() - 1);
                            let oj = if j < i { j } else { j + 1 };
                            assert(newv[j] == oldv[oj]);
                            assert(pre.has(k));
                        }
                    }
                }
                return;
            }
            i += 1;
        }
        let p = clone_path(path);
        self.entries.push(PendingEntry { path: p, fire_at_ms: fire });
        proof {
            let oldv = pre.entries@;
            let newv = self.entries@;
            assert(newv[newv.len() - 1].path.deep_view() == path.deep_view());
            assert forall|a: int, b: int|
                0 <= a < b < newv.len() implies #[trigger] newv[a].path.deep_view()
                != #[trigger] newv[b].path.deep_view() by {
                assert(newv[a] == oldv[a]);
                if b < newv.len() - 1 {
                    assert(newv[b] == oldv[b]);
                }
            }
            assert(self.wf());
            self.lemma_entry_fire(newv.len() - 1);
            assert forall|k: Seq<Seq<u8>>| k != path.deep_view() implies (self.has(k) == pre.has(
                k,
            ) && (pre.has(k) ==> self.fire_at(k) == pre.fire_at(k))) by {
                if pre.has(k) {
                    let j = choose|j: int|
                        0 <= j < oldv.len() && #[trigger] oldv[j].path.deep_view() == k;
                    assert(newv[j] == oldv[j]);
                    assert(self.has(k));
                    pre.lemma_entry_fire(j);
                    self.lemma_entry_fire(j);
                }
                if self.has(k) {
                    let j = choose|j: int|
                        0 <= j < newv.len() && #[trigger] newv[j].path.deep_view() == k;
                    assert(j < newv.len() - 1);
                    assert(newv[j] == oldv[j]);
                    assert(pre.has(k));
                }
            }
        }
    }

    fn remove_at(&mut self, m: usize) -> (p: Vec<Vec<u8>>)
        requires
            old(self).wf(),
            m < old(self).entries@.len(),
        ensures
            final(self).wf(),
            final(self).window() == old(self).window(),
            p.deep_view() == old(self).entries@[m as int].path.deep_view(),
            old(self).has(p.deep_view()),
            old(self).fire_at(p.deep_view()) == old(self).entries@[m as int].fire_at_ms,
            !final(self).has(p.deep_view()),
            forall|k: Seq<Seq<u8>>|
                k != p.deep_view() ==> final(self).has(k) == old(self).has(k),
            forall|k: Seq<Seq<u8>>|
                k != p.deep_view() && old(self).has(k) ==> final(self).fire_at(k)
                    == old(self).fire_at(k),
            final(self).pending_count() == old(self).pending_count() - 1,
    {
        let ghost pre = *self;
        let e = self.entries.remove(m);
        proof {
            let oldv = pre.entries@;
            let newv = self.entries@;
            pre.lemma_entry_fire(m as int);
            assert forall|a: int, b: int|
                0 <= a < b < newv.len() implies #[trigger] newv[a].path.deep_view()
                != #[trigger] newv[b].path.deep_view() by {
                let ra = if a < m { a } else { a + 1 };
                let rb = if b < m { b } else { b + 1 };
                assert(newv[a] == oldv[ra]);
                assert(newv[b] == oldv[rb]);
                assert(oldv[ra].path.deep_view() != oldv[rb].path.deep_view());
            }
            assert(self.wf());
            assert forall|k: Seq<Seq<u8>>|
                k != e.path.deep_view() implies (self.has(k) == pre.has(k) && (pre.has(k)
                ==> self.fire_at(k) == pre.fire_at(k))) by {
                if pre.has(k) {
                    let j = choose|j: int|
                        0 <= j < oldv.len() && #[trigger] oldv[j].path.deep_view() == k;
                    assert(j != m);
                    let nj = if j < m { j } else { j - 1 };
                    assert(newv[nj] == oldv[j]);
                    assert(self.has(k));
                    pre.lemma_entry_fire(j);
                    self.lemma_entry_fire(nj);
                }
                if self.has(k) {
                    let j = choose|j: int|
                        0 <= j < newv.len() && #[trigger] newv[j].path.deep_view() == k;
                    let oj = if j < m { j } else { j + 1 };
                    assert(newv[j] == oldv[oj]);
                    assert(pre.has(k));
                }
            }
            assert(!self.has(e.path.deep_view())) by {
                if self.has(e.path.deep_view()) {
                    let j = choose|j: int|
                        0 <= j < newv.len() && #[trigger] newv[j].path.deep_view()
                            == e.path.deep_view();
                    let oj = if j < m { j } else { j + 1 };
                    assert(newv[j] == oldv[oj]);
                    assert(oj != m);
                    if oj < m {
                        assert(oldv[oj].path.deep_view() != oldv[m as int].path.deep_view());
                    } else {
                        assert(oldv[m as int].path.deep_view() != oldv[oj].path.deep_view());
                    }
                }
            }
        }
        e.path
    }

    fn first_due(&self, now_ms: u64) -> (r: Option<usize>)
        requires
            self.wf(),
        ensures
            r is Some ==> (r.unwrap() as int) < self.entries@.len()
                && self.entries@[r.unwrap() as int].fire_at_ms <= now_ms,
            r is None ==> forall|k: Seq<Seq<u8>>| self.has(k) ==> #[trigger] self.fire_at(k)
                > now_ms,
    {
        let mut m: usize = 0;
        while m < self.entries.len()
            invariant
                m <= self.entries@.len(),
                forall|j: int| 0 <= j < m ==> #[trigger] self.entries@[j].fire_at_ms > now_ms,
            decreases self.entries.len() - m,
        {
            if self.entries[m].fire_at_ms <= now_ms {
                return Some(m);
            }
            m += 1;
        }
        proof {
            assert forall|k: Seq<Seq<u8>>| self.has(k) implies #[trigger] self.fire_at(k)
                > now_ms by {
                let j = choose|j: int|
                    0 <= j < self.entries@.len() && #[trigger] self.entries@[j].path.deep_view()
                        == k;
                self.lemma_entry_fire(j);
            }
        }
        None
    }

    /// Hands out, and removes, every path whose fire time has been reached;
    /// everything still inside its quiet window stays pending, unchanged.
    /// Each due path appears exactly once in the batch.
    pub fn take_due(&mut self, now_ms: u64) -> (due: Vec<Vec<Vec<u8>>>)
        requires
            old(self).wf(),
        ensures
            final(self).wf(),
            final(self).window() == old(self).window(),
            forall|k: Seq<Seq<u8>>|
                old(self).has(k) && old(self).fire_at(k) <= now_ms ==> !final(self).has(k),
            forall|k: Seq<Seq<u8>>|
                old(self).has(k) && old(self).fire_at(k) > now_ms ==> final(self).has(k)
                    && final(self).fire_at(k) == old(self).fire_at(k),
            forall|k: Seq<Seq<u8>>| !old(self).has(k) ==> !final(self).has(k),
            forall|j: int|
                0 <= j < due@.len() ==> old(self).has(#[trigger] due@[j].deep_view())
                    && old(self).fire_at(due@[j].deep_view()) <= now_ms,
            forall|k: Seq<Seq<u8>>|
                old(self).has(k) && old(self).fire_at(k) <= now_ms ==> exists|j: int|
                    0 <= j < due@.len() && #[trigger] due@[j].deep_view() == k,
            forall|j1: int, j2: int|
                0 <= j1 < j2 < due@.len() ==> due@[j1].deep_view() != due@[j2].deep_view(),
    {
        let ghost pre = *self;
        let mut due: Vec<Vec<Vec<u8>>> = Vec::new();
        loop
            invariant
                pre == *old(self),
                self.wf(),
                self.window() == pre.window(),
                forall|k: Seq<Seq<u8>>| !pre.has(k) ==> !self.has(k),
                forall|k: Seq<Seq<u8>>|
                    pre.has(k) && pre.fire_at(k) > now_ms ==> self.has(k) && self.fire_at(k)
                        == pre.fire_at(k),
                forall|k: Seq<Seq<u8>>|
                    self.has(k) ==> pre.has(k) && pre.fire_at(k) == #[trigger] self.fire_at(k),
                forall|j: int|
                    0 <= j < due@.len() ==> pre.has(#[trigger] due@[j].deep_view()) && pre.fire_at(
                        due@[j].deep_view(),
                    ) <= now_ms,
                forall|j: int| 0 <= j < due@.len() ==> !self.has(#[trigger] due@[j].deep_view()),
                forall|k: Seq<Seq<u8>>|
                    pre.has(k) && pre.fire_at(k) <= now_ms ==> self.has(k) || exists|j: int|
                        0 <= j < due@.len() && #[trigger] due@[j].deep_view() == k,
                forall|j1: int, j2: int|
                    0 <= j1 < j2 < due@.len() ==> due@[j1].deep_view() != due@[j2].deep_view(),
            decreases self.entries@.len(),
        {
            let found = self.first_due(now_ms);
            match found {
                None => {
                    proof {
                        assert forall|k: Seq<Seq<u8>>|
                            pre.has(k) && pre.fire_at(k) <= now_ms implies !self.has(k)
                            && (exists|j: int|
                            0 <= j < due@.len() && #[trigger] due@[j].deep_view() == k) by {
                            if self.has(k) {
                                assert(self.fire_at(k) == pre.fire_at(k));
                                assert(self.fire_at(k) > now_ms);
                            }
                        }
                    }
                    return due;
                },
                Some(m) => {
                    let ghost before = *self;
                    let p = self.remove_at(m);
                    let ghost kp = p.deep_view();
                    proof {
                        assert(before.has(kp) && before.fire_at(kp) <= now_ms);
                        assert(pre.has(kp) && pre.fire_at(kp) <= now_ms);
                    }
                    let ghost due0 = due@;
                    due.push(p);
                    proof {
                        assert(due@ == due0.push(p));
                        assert forall|j: int|
                            0 <= j < due@.len() implies pre.has(#[trigger] due@[j].deep_view())
                            && pre.fire_at(due@[j].deep_view()) <= now_ms && !self.has(
                            due@[j].deep_view(),
                        ) by {
                            if j < due0.len() {
                                assert(due@[j] == due0[j]);
                            } else {
                                assert(due@[j] == p);
                            }
                        }
                        assert forall|k: Seq<Seq<u8>>|
                            pre.has(k) && pre.fire_at(k) <= now_ms implies self.has(k) || exists|
                                j: int,
                            | 0 <= j < due@.len() && #[trigger] due@[j].deep_view() == k by {
                            if !self.has(k) && k != kp {
                                if before.has(k) {
                                    assert(self.has(k) == before.has(k));
                                } else {
                                    let j = choose|j: int|
                                        0 <= j < due0.len() && #[trigger] due0[j].deep_view()
                                            == k;
                                    assert(due@[j] == due0[j]);
                                    assert(due@[j].deep_view() == k);
                                }
                            }
                            if k == kp {
                                assert(due@[due0.len() as int].deep_view() == k);
                            }
                        }
                        assert forall|j1: int, j2: int|
                            0 <= j1 < j2 < due@.len() implies due@[j1].deep_view()
                            != due@[j2].deep_view() by {
                            if j2 == due0.len() {
                                assert(due@[j1] == due0[j1]);
                                assert(!before.has(due0[j1].deep_view()));
                                assert(before.has(kp));
                            } else {
                                assert(due@[j1] == due0[j1]);
                                assert(due@[j2] == due0[j2]);
                            }
                        }
                    }
                },
            }
        }
    }
}

/// Trailing-edge debounce: after a burst whose last notification for a path
/// arrived at `last`, the pending fire time is `last + window`, so any poll
/// strictly before `last + window` finds the path not yet due and must keep
/// it pending rather than hand it out.
pub proof fn lemma_quiet_window(d: Debouncer, k: Seq<Seq<u8>>, last: u64, poll: u64)
    requires
        d.has(k),
        d.fire_at(k) == last + d.window(),
        poll < last + d.window(),
    ensures
        d.fire_at(k) > poll,
{
}

/// A due batch never hands the same path out twice: two positions carrying
/// one path are one and the same position.
pub proof fn lemma_single_hand_out(due: Seq<Seq<Seq<u8>>>, k: Seq<Seq<u8>>, j1: int, j2: int)
    requires
        forall|a: int, b: int| 0 <= a < b < due.len() ==> due[a] != due[b],
        0 <= j1 < due.len(),
        0 <= j2 < due.len(),
        due[j1] == k,
        due[j2] == k,
    ensures
        j1 == j2,
{
}

} // verus!
