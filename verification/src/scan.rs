//! The periodic-scan boundary rule.
//!
//! A pass reports every regular file whose modification time is at or after
//! the boundary, and the boundary then advances to the *start* time of the
//! pass that just ran — never its completion time — so a file touched while
//! a long scan is running is caught by the following pass instead of being
//! skipped. The very first boundary is the worker's start time: files that
//! predate the worker are not backed up merely because it started.

use vstd::prelude::*;

verus! {

/// One regular file met during a tree walk: its path and its
/// last-modified time in milliseconds.
pub struct ScanEntry {
    pub path: Vec<Vec<u8>>,
    pub mtime_ms: u64,
}

/// The indices, in order, of the entries modified at or after the boundary.
pub open spec fn due_indices(s: Seq<ScanEntry>, boundary: u64) -> Seq<usize>
    decreases s.len(),
{
    if s.len() == 0 {
        Seq::<usize>::empty()
    } else {
        let pre = due_indices(s.drop_last(), boundary);
        if s.last().mtime_ms >= boundary {
            pre.push((s.len() - 1) as usize)
        } else {
            pre
        }
    }
}

/// The state the periodic strategy carries between passes: the boundary
/// against which the next pass compares modification times.
pub struct Scanner {
    boundary_ms: u64,
}

impl Scanner {
    /// The current boundary.
    pub closed spec fn boundary(self) -> u64 {
        self.boundary_ms
    }

    /// A fresh scanner whose first boundary is the worker's start time.
    pub fn new(start_ms: u64) -> (s: Scanner)
        ensures
            s.boundary() == start_ms,
    {
        Scanner { boundary_ms: start_ms }
    }

    /// One pass over the walked tree: returns the indices of the entries
    /// modified at or after the previous boundary, and moves the boundary
    /// to this pass's start time.
    pub fn scan(&mut self, entries: &Vec<ScanEntry>, scan_start_ms: u64) -> (due: Vec<usize>)
        ensures
            final(self).boundary() == scan_start_ms,
            due@ == due_indices(entries@, old(self).boundary()),
    {
        let boundary = self.boundary_ms;
        let mut due: Vec<usize> = Vec::new();
        let mut i: usize = 0;
        assert(entries@.take(0) =~= Seq::<ScanEntry>::empty());
        while i < entries.len()
            invariant
                i <= entries.len(),
                due@ == due_indices(entries@.take(i as int), boundary),
            decreases entries.len() - i,
        {
            proof {
                let t1 = entries@.take(i as int + 1);
                assert(t1.drop_last() =~= entries@.take(i as int));
                assert(t1.last() == entries@[i as int]);
            }
            if entries[i].mtime_ms >= boundary {
                due.push(i);
            }
            i += 1;
        }
        assert(entries@.take(entries@.len() as int) =~= entries@);
        self.boundary_ms = scan_start_ms;
        due
    }
}

/// Every reported index points into the walked tree, at an entry modified
/// at or after the boundary.
pub proof fn lemma_due_index_sound(s: Seq<ScanEntry>, boundary: u64, j: int)
    requires
        0 <= j < due_indices(s, boundary).len(),
        s.len() <= usize::MAX,
    ensures
        (due_indices(s, boundary)[j] as int) < s.len(),
        s[due_indices(s, boundary)[j] as int].mtime_ms >= boundary,
    decreases s.len(),
{
    let due = due_indices(s, boundary);
    if s.len() > 0 {
        let pre = due_indices(s.drop_last(), boundary);
        if j < pre.len() {
            lemma_due_index_sound(s.drop_last(), boundary, j);
            assert(s.drop_last()[pre[j] as int] == s[pre[j] as int]);
        } else {
            assert(s.last().mtime_ms >= boundary);
            assert(due[j] == (s.len() - 1) as usize);
        }
    }
}

/// Every entry modified at or after the boundary is reported.
pub proof fn lemma_due_index_complete(s: Seq<ScanEntry>, boundary: u64, i: int)
    requires
        0 <= i < s.len(),
        s.len() <= usize::MAX,
        s[i].mtime_ms >= boundary,
    ensures
        due_indices(s, boundary).contains(i as usize),
    decreases s.len(),
{
    let due = due_indices(s, boundary);
    let pre = due_indices(s.drop_last(), boundary);
    if i == s.len() - 1 {
        assert(due[pre.len() as int] == i as usize);
        assert(due.contains(i as usize));
    } else {
        assert(s.drop_last()[i] == s[i]);
        lemma_due_index_complete(s.drop_last(), boundary, i);
        let j = choose|j: int| 0 <= j < pre.len() && pre[j] == i as usize;
        assert(due[j] == i as usize);
        assert(due.contains(i as usize));
    }
}

/// The boundary rule in one line: an entry is reported by a pass exactly
/// when its modification time is at or after the previous pass's start
/// time, however long either pass ran.
pub proof fn lemma_due_characterization(s: Seq<ScanEntry>, boundary: u64, i: int)
    requires
        0 <= i < s.len(),
        s.len() <= usize::MAX,
    ensures
        s[i].mtime_ms >= boundary <==> due_indices(s, boundary).contains(i as usize),
{
    let due = due_indices(s, boundary);
    if s[i].mtime_ms >= boundary {
        lemma_due_index_complete(s, boundary, i);
    } else if due.contains(i as usize) {
        let j = choose|j: int| 0 <= j < due.len() && due[j] == i as usize;
        lemma_due_index_sound(s, boundary, j);
    }
}

} // verus!
