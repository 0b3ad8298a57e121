//! Resolution of a source file to its destination inside the backup tree:
//! `backup_root / top_folder / snapshot_name / middle... / filename`.

use vstd::prelude::*;
use crate::bytes::clone_bytes;
use crate::clock::Timestamp;
use crate::formatter::{FmtCtx, format_spec, variable_replacer};
use crate::paths::{RelParts, clone_path, lemma_deep_view_is_views};

verus! {

/// The snapshot generation's folder name: the naming template rendered
/// against the file's context and the clock.
pub open spec fn snapshot_name_spec(
    fmt: Seq<u8>,
    top: Seq<u8>,
    filename: Seq<u8>,
    count: nat,
    ts: Timestamp,
) -> Seq<u8> {
    format_spec(fmt, FmtCtx { top_folder: top, filename: filename, count: count, ts: ts })
}

/// The destination directory's components.
pub open spec fn dest_dir_spec(
    backup_root: Seq<Seq<u8>>,
    top: Seq<u8>,
    snap: Seq<u8>,
    middle: Seq<Seq<u8>>,
) -> Seq<Seq<u8>> {
    backup_root + seq![top, snap] + middle
}

/// Where one backed-up file lands.
pub struct BackupTarget {
    /// Top-level folder under the backup root.
    pub top_folder: Vec<u8>,
    /// The snapshot generation's folder name.
    pub snapshot_name: Vec<u8>,
    /// Directory that receives the file.
    pub dest_dir: Vec<Vec<u8>>,
    /// Full destination path of the file itself.
    pub dest_file: Vec<Vec<u8>>,
}

/// Computes the destination for one file: the snapshot folder name comes
/// from the naming template, and the directory is
/// `backup_root / top_folder / snapshot_name / middle...`, the file keeping
/// its base name inside it. `count` is how many generation folders already
/// exist for this top folder on disk.
pub fn resolve_target(
    parts: &RelParts,
    backup_root: &Vec<Vec<u8>>,
    count: usize,
    fmt: &Vec<u8>,
    ts: &Timestamp,
) -> (t: BackupTarget)
    requires
        count < usize::MAX,
    ensures
        t.top_folder@ == parts.top_folder@,
        t.snapshot_name@ == snapshot_name_spec(
            fmt@,
            parts.top_folder@,
            parts.filename@,
            count as nat,
            *ts,
        ),
        t.dest_dir.deep_view() == dest_dir_spec(
            backup_root.deep_view(),
            parts.top_folder@,
            t.snapshot_name@,
            parts.middle.deep_view(),
        ),
        t.dest_file.deep_view() == t.dest_dir.deep_view().push(parts.filename@),
{
    let ghost dbr = backup_root.deep_view();
    let ghost dmid = parts.middle.deep_view();
    let snapshot_name = variable_replacer(fmt, &parts.top_folder, &parts.filename, count, ts);
    let top_folder = clone_bytes(&parts.top_folder);
    let mut dest_dir = clone_path(backup_root);
    proof {
        lemma_deep_view_is_views(dest_dir);
        lemma_deep_view_is_views(*backup_root);
    }
    let c_top = clone_bytes(&parts.top_folder);
    dest_dir.push(c_top);
    let c_snap = clone_bytes(&snapshot_name);
    dest_dir.push(c_snap);
    let n = dest_dir.len();
    let mut i: usize = 0;
    while i < parts.middle.len()
        invariant
            i <= parts.middle@.len(),
            n == dbr.len() + 2,
            dest_dir@.len() == n + i,
            dmid == parts.middle.deep_view(),
            forall|j: int| 0 <= j < dbr.len() ==> #[trigger] dest_dir@[j]@ == dbr[j],
            dest_dir@[dbr.len() as int]@ == parts.top_folder@,
            dest_dir@[dbr.len() as int + 1]@ == snapshot_name@,
            forall|j: int| 0 <= j < i ==> #[trigger] dest_dir@[n + j]@ == dmid[j],
        decreases parts.middle.len() - i,
    {
        proof {
            lemma_deep_view_is_views(parts.middle);
        }
        let c = clone_bytes(&parts.middle[i]);
        dest_dir.push(c);
        i += 1;
    }
    proof {
        lemma_deep_view_is_views(dest_dir);
        let rhs = dest_dir_spec(dbr, parts.top_folder@, snapshot_name@, dmid);
        assert forall|j: int| 0 <= j < dest_dir@.len() implies dest_dir.deep_view()[j] == rhs[j] by {
            if j >= dbr.len() + 2 {
                let k = j - (n as int);
                assert(dest_dir@[n + k]@ == dmid[k]);
            }
        }
        assert(dest_dir.deep_view() =~= rhs);
    }
    let mut dest_file = clone_path(&dest_dir);
    proof {
        lemma_deep_view_is_views(dest_file);
        lemma_deep_view_is_views(dest_dir);
    }
    let c_file = clone_bytes(&parts.filename);
    dest_file.push(c_file);
    proof {
        lemma_deep_view_is_views(dest_file);
        assert(dest_file.deep_view() =~= dest_dir.deep_view().push(parts.filename@));
    }
    BackupTarget { top_folder, snapshot_name, dest_dir, dest_file }
}

/// Re-running the resolution for the same unchanged source file, against the
/// same generation count and the same clock value, lands on the very same
/// destination: the second pass overwrites in place rather than opening a
/// new generation folder.
pub proof fn lemma_resolution_idempotent(
    fmt: Seq<u8>,
    top: Seq<u8>,
    filename: Seq<u8>,
    count: nat,
    ts: Timestamp,
    backup_root: Seq<Seq<u8>>,
    middle: Seq<Seq<u8>>,
    d1: Seq<Seq<u8>>,
    d2: Seq<Seq<u8>>,
)
    requires
        d1 == dest_dir_spec(
            backup_root,
            top,
            snapshot_name_spec(fmt, top, filename, count, ts),
            middle,
        ),
        d2 == dest_dir_spec(
            backup_root,
            top,
            snapshot_name_spec(fmt, top, filename, count, ts),
            middle,
        ),
    ensures
        d1 == d2,
        d1.push(filename) == d2.push(filename),
{
}

} // verus!
