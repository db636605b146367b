use vstd::prelude::*;
use crate::fs_model::FsModel;
use crate::text::{
    spec_backup_path, backup_path, lemma_bpath_ne_base, lemma_bpath_injective,
};

verus! {

/// One backup shift: if a file sits in slot `i`, it moves to slot `i + 1`,
/// replacing whatever was there; an empty slot shifts nothing.
pub open spec fn spec_shift_one(
    m: Map<Seq<char>, Seq<u8>>,
    p: Seq<char>,
    i: nat,
) -> Map<Seq<char>, Seq<u8>> {
    let src = spec_backup_path(p, i);
    let dst = spec_backup_path(p, i + 1);
    if m.contains_key(src) {
        m.remove(src).insert(dst, m[src])
    } else {
        m
    }
}

/// Backup slots `hi - 1` down to `lo` shifted up one place, highest first,
/// so that no backup is overwritten before it has moved.
pub open spec fn spec_shift_down(
    m: Map<Seq<char>, Seq<u8>>,
    p: Seq<char>,
    lo: nat,
    hi: nat,
) -> Map<Seq<char>, Seq<u8>>
    decreases hi - lo,
{
    if hi <= lo {
        m
    } else {
        spec_shift_down(spec_shift_one(m, p, (hi - 1) as nat), p, lo, (hi - 1) as nat)
    }
}

/// A write must rotate first exactly when the active file exists and has
/// reached the size threshold.
pub open spec fn spec_rotation_due(
    m: Map<Seq<char>, Seq<u8>>,
    p: Seq<char>,
    max: u64,
) -> bool {
    m.contains_key(p) && m[p].len() >= max
}

/// The whole rotation: backups `count - 1` down to `1` shift up one slot,
/// then the active file moves to slot `1`. Slot `count`'s old content is
/// overwritten or left in place, never moved on: the oldest backup is
/// discarded by omission.
pub open spec fn spec_rotate(
    m: Map<Seq<char>, Seq<u8>>,
    p: Seq<char>,
    count: nat,
) -> Map<Seq<char>, Seq<u8>>
    recommends
        m.contains_key(p),
{
    spec_shift_down(m, p, 1, count).remove(p).insert(spec_backup_path(p, 1), m[p])
}

/// Shifting sources `lo .. hi - 1` in descending order ends with the shift
/// at `lo`.
proof fn lemma_shift_unfold(m: Map<Seq<char>, Seq<u8>>, p: Seq<char>, lo: nat, hi: nat)
    requires
        lo < hi,
    ensures
        spec_shift_down(m, p, lo, hi) == spec_shift_one(
            spec_shift_down(m, p, lo + 1, hi),
            p,
            lo,
        ),
    decreases hi - lo,
{
    let m1 = spec_shift_one(m, p, (hi - 1) as nat);
    if lo + 1 == hi {
        assert(spec_shift_down(m, p, lo, hi) == spec_shift_down(m1, p, lo, lo));
        assert(spec_shift_down(m1, p, lo, lo) == m1);
        assert(spec_shift_down(m, p, lo + 1, hi) == m);
    } else {
        lemma_shift_unfold(m1, p, lo, (hi - 1) as nat);
        assert(spec_shift_down(m, p, lo, hi) == spec_shift_down(m1, p, lo, (hi - 1) as nat));
        assert(spec_shift_down(m, p, lo + 1, hi) == spec_shift_down(m1, p, lo + 1, (hi - 1) as nat));
    }
}

/// A key that is no backup slot of the range is untouched by the shifts.
proof fn lemma_shift_untouched(
    m: Map<Seq<char>, Seq<u8>>,
    p: Seq<char>,
    lo: nat,
    hi: nat,
    k: Seq<char>,
)
    requires
        forall|j: nat| lo <= j <= hi ==> k != spec_backup_path(p, j),
    ensures
        spec_shift_down(m, p, lo, hi).contains_key(k) == m.contains_key(k),
        m.contains_key(k) ==> spec_shift_down(m, p, lo, hi)[k] == m[k],
    decreases hi - lo,
{
    if lo < hi {
        let m1 = spec_shift_one(m, p, (hi - 1) as nat);
        assert(k != spec_backup_path(p, (hi - 1) as nat));
        assert(k != spec_backup_path(p, hi));
        lemma_shift_untouched(m1, p, lo, (hi - 1) as nat, k);
    }
}

/// The active file itself is untouched by the backup shifts.
proof fn lemma_shift_preserves_base(
    m: Map<Seq<char>, Seq<u8>>,
    p: Seq<char>,
    lo: nat,
    hi: nat,
)
    ensures
        spec_shift_down(m, p, lo, hi).contains_key(p) == m.contains_key(p),
        m.contains_key(p) ==> spec_shift_down(m, p, lo, hi)[p] == m[p],
{
    assert forall|j: nat| lo <= j <= hi implies p != spec_backup_path(p, j) by {
        lemma_bpath_ne_base(p, j);
    }
    lemma_shift_untouched(m, p, lo, hi, p);
}

/// Where each backup slot of the range ends up after the descending shifts:
/// slot `j` receives slot `j - 1`'s content when that slot was filled; when
/// it was empty, slot `j` is itself emptied — except the topmost slot `hi`,
/// which is never a source and keeps its content in that case.
proof fn lemma_shift_moved(
    m: Map<Seq<char>, Seq<u8>>,
    p: Seq<char>,
    lo: nat,
    hi: nat,
    j: nat,
)
    requires
        lo + 1 <= j <= hi,
    ensures
        m.contains_key(spec_backup_path(p, (j - 1) as nat)) ==> spec_shift_down(
            m,
            p,
            lo,
            hi,
        ).contains_key(spec_backup_path(p, j)) && spec_shift_down(m, p, lo, hi)[spec_backup_path(
            p,
            j,
        )] == m[spec_backup_path(p, (j - 1) as nat)],
        !m.contains_key(spec_backup_path(p, (j - 1) as nat)) && j < hi ==> !spec_shift_down(
            m,
            p,
            lo,
            hi,
        ).contains_key(spec_backup_path(p, j)),
        !m.contains_key(spec_backup_path(p, (j - 1) as nat)) && j == hi ==> spec_shift_down(
            m,
            p,
            lo,
            hi,
        ).contains_key(spec_backup_path(p, j)) == m.contains_key(spec_backup_path(p, j)) && (
        m.contains_key(spec_backup_path(p, j)) ==> spec_shift_down(m, p, lo, hi)[spec_backup_path(
            p,
            j,
        )] == m[spec_backup_path(p, j)]),
    decreases hi - lo,
{
    let s = (hi - 1) as nat;
    let m1 = spec_shift_one(m, p, s);
    if j == hi {
        assert forall|t: nat| lo <= t <= s implies spec_backup_path(p, hi) != spec_backup_path(
            p,
            t,
        ) by {
            lemma_bpath_injective(p, hi, t);
        }
        lemma_shift_untouched(m1, p, lo, s, spec_backup_path(p, hi));
    } else {
        lemma_bpath_injective(p, (j - 1) as nat, s);
        lemma_bpath_injective(p, (j - 1) as nat, hi);
        if j < s {
            lemma_bpath_injective(p, j, s);
            lemma_bpath_injective(p, j, hi);
        } else {
            lemma_bpath_injective(p, j, hi);
        }
        lemma_shift_moved(m1, p, lo, s, j);
    }
}

/// What one rotation does to the backup slots: the active file's content
/// lands in slot 1, the active path itself is left empty for the next
/// append, each filled slot below `count` moves up one place, and a slot
/// whose predecessor was empty is empty afterwards (slot `count`, never
/// moved, keeps its content in that one case).
pub proof fn lemma_rotate_shifts(m: Map<Seq<char>, Seq<u8>>, p: Seq<char>, count: nat)
    requires
        m.contains_key(p),
    ensures
        spec_rotate(m, p, count).contains_key(spec_backup_path(p, 1)),
        spec_rotate(m, p, count)[spec_backup_path(p, 1)] == m[p],
        !spec_rotate(m, p, count).contains_key(p),
        forall|j: nat|
            2 <= j <= count && m.contains_key(spec_backup_path(p, (j - 1) as nat)) ==> spec_rotate(
                m,
                p,
                count,
            ).contains_key(#[trigger] spec_backup_path(p, j)) && spec_rotate(m, p, count)[
                spec_backup_path(p, j)] == m[spec_backup_path(p, (j - 1) as nat)],
        forall|j: nat|
            2 <= j < count && !m.contains_key(spec_backup_path(p, (j - 1) as nat))
                ==> !spec_rotate(m, p, count).contains_key(#[trigger] spec_backup_path(p, j)),
        count >= 2 && !m.contains_key(spec_backup_path(p, (count - 1) as nat)) ==> spec_rotate(
            m,
            p,
            count,
        ).contains_key(spec_backup_path(p, count)) == m.contains_key(spec_backup_path(p, count))
            && (m.contains_key(spec_backup_path(p, count)) ==> spec_rotate(m, p, count)[
            spec_backup_path(p, count)] == m[spec_backup_path(p, count)]),
{
    lemma_bpath_ne_base(p, 1);
    assert forall|j: nat| #![trigger spec_backup_path(p, j)]
        2 <= j <= count implies {
        let r = spec_rotate(m, p, count);
        let sd = spec_shift_down(m, p, 1, count);
        &&& r.contains_key(spec_backup_path(p, j)) == sd.contains_key(spec_backup_path(p, j))
        &&& (sd.contains_key(spec_backup_path(p, j)) ==> r[spec_backup_path(p, j)] == sd[
            spec_backup_path(p, j)])
    } by {
        lemma_bpath_ne_base(p, j);
        lemma_bpath_injective(p, j, 1);
    }
    assert forall|j: nat| #![trigger spec_backup_path(p, j)]
        2 <= j <= count implies {
        &&& (m.contains_key(spec_backup_path(p, (j - 1) as nat)) ==> spec_shift_down(
            m,
            p,
            1,
            count,
        ).contains_key(#[trigger] spec_backup_path(p, j)) && spec_shift_down(m, p, 1, count)[
            spec_backup_path(p, j)] == m[spec_backup_path(p, (j - 1) as nat)])
        &&& (!m.contains_key(spec_backup_path(p, (j - 1) as nat)) && j < count
            ==> !spec_shift_down(m, p, 1, count).contains_key(spec_backup_path(p, j)))
        &&& (!m.contains_key(spec_backup_path(p, (j - 1) as nat)) && j == count
            ==> spec_shift_down(m, p, 1, count).contains_key(spec_backup_path(p, j))
                == m.contains_key(spec_backup_path(p, j)) && (m.contains_key(
                spec_backup_path(p, j),
            ) ==> spec_shift_down(m, p, 1, count)[spec_backup_path(p, j)] == m[spec_backup_path(
                p,
                j,
            )]))
    } by {
        lemma_shift_moved(m, p, 1, count, j);
    }
}

/// A path that is neither the active file nor a backup slot up to `count`
/// (slot 1 included even when `count` is 0, since the active file always
/// moves there) is untouched by a rotation.
pub proof fn lemma_rotate_untouched(
    m: Map<Seq<char>, Seq<u8>>,
    p: Seq<char>,
    count: nat,
    k: Seq<char>,
)
    requires
        k != p,
        k != spec_backup_path(p, 1),
        forall|j: nat| 1 <= j <= count ==> k != spec_backup_path(p, j),
    ensures
        spec_rotate(m, p, count).contains_key(k) == m.contains_key(k),
        m.contains_key(k) ==> spec_rotate(m, p, count)[k] == m[k],
{
    lemma_shift_untouched(m, p, 1, count, k);
}

/// The backup bound: with a full chain, a rotation overwrites slot `count`
/// with slot `count - 1`'s content and creates no slot beyond `count`, so
/// the content that sat in the oldest slot survives under no backup name.
pub proof fn lemma_rotate_drops_oldest(m: Map<Seq<char>, Seq<u8>>, p: Seq<char>, count: nat)
    requires
        m.contains_key(p),
        count >= 2,
        m.contains_key(spec_backup_path(p, (count - 1) as nat)),
    ensures
        spec_rotate(m, p, count).contains_key(spec_backup_path(p, count)),
        spec_rotate(m, p, count)[spec_backup_path(p, count)] == m[spec_backup_path(
            p,
            (count - 1) as nat,
        )],
        forall|j: nat|
            j > count ==> spec_rotate(m, p, count).contains_key(
                #[trigger] spec_backup_path(p, j),
            ) == m.contains_key(spec_backup_path(p, j)) && (m.contains_key(spec_backup_path(p, j))
                ==> spec_rotate(m, p, count)[spec_backup_path(p, j)] == m[spec_backup_path(p, j)]),
{
    lemma_rotate_shifts(m, p, count);
    assert forall|j: nat|
        j > count implies spec_rotate(m, p, count).contains_key(#[trigger] spec_backup_path(p, j))
        == m.contains_key(spec_backup_path(p, j)) && (m.contains_key(spec_backup_path(p, j))
        ==> spec_rotate(m, p, count)[spec_backup_path(p, j)] == m[spec_backup_path(p, j)]) by {
        lemma_bpath_ne_base(p, j);
        assert forall|t: nat| 1 <= t <= count implies spec_backup_path(p, j) != spec_backup_path(
            p,
            t,
        ) by {
            lemma_bpath_injective(p, j, t);
        }
        lemma_bpath_injective(p, j, 1);
        lemma_rotate_untouched(m, p, count, spec_backup_path(p, j));
    }
}

/// The ordered list of renames one rotation performs: each backup moves up
/// one slot, highest first, and last of all the active file moves to slot 1.
/// An unverified caller may simply attempt every rename and ignore failures,
/// since renaming a missing source changes nothing.
pub fn rotation_renames(path: &str, count: usize) -> (ops: Vec<(String, String)>)
    ensures
        ops@.len() == (if count >= 2 {
            count as int
        } else {
            1int
        }),
        forall|k: int|
            0 <= k < ops@.len() - 1 ==> (#[trigger] ops@[k]).0@ == spec_backup_path(
                path@,
                (count - 1 - k) as nat,
            ) && ops@[k].1@ == spec_backup_path(path@, (count - k) as nat),
        ops@[ops@.len() - 1].0@ == path@,
        ops@[ops@.len() - 1].1@ == spec_backup_path(path@, 1),
{
    let mut ops: Vec<(String, String)> = Vec::new();
    let mut i: usize = count;
    while i >= 2
        invariant
            i <= count,
            count < 2 ==> i == count,
            count >= 2 ==> 1 <= i,
            ops@.len() == count - i,
            forall|k: int|
                0 <= k < ops@.len() ==> (#[trigger] ops@[k]).0@ == spec_backup_path(
                    path@,
                    (count - 1 - k) as nat,
                ) && ops@[k].1@ == spec_backup_path(path@, (count - k) as nat),
        decreases i,
    {
        i = i - 1;
        let src = backup_path(path, i as u64);
        let dst = backup_path(path, (i + 1) as u64);
        ops.push((src, dst));
    }
    ops.push((path.to_owned(), backup_path(path, 1)));
    ops
}

/// Size-triggered rotation against the filesystem model, exactly as a write
/// performs it: a no-op while the active file is missing or under the
/// threshold, otherwise the backup shuffle described by `spec_rotate`.
pub fn rotate(fs: &mut FsModel, path: &str, max: u64, count: usize)
    requires
        old(fs).wf(),
    ensures
        final(fs).wf(),
        spec_rotation_due(old(fs)@, path@, max) ==> final(fs)@ == spec_rotate(
            old(fs)@,
            path@,
            count as nat,
        ),
        !spec_rotation_due(old(fs)@, path@, max) ==> final(fs)@ == old(fs)@,
{
    let size = fs.file_len(path);
    match size {
        None => {},
        Some(len) => {
            if (len as u64) >= max {
                let ghost m0 = fs@;
                let ops = rotation_renames(path, count);
                let n = ops.len();
                let mut t: usize = 0;
                while t < n - 1
                    invariant
                        fs.wf(),
                        n == ops@.len(),
                        n == (if count >= 2 {
                            count as int
                        } else {
                            1int
                        }),
                        forall|k: int|
                            0 <= k < ops@.len() - 1 ==> (#[trigger] ops@[k]).0@
                                == spec_backup_path(path@, (count - 1 - k) as nat) && ops@[k].1@
                                == spec_backup_path(path@, (count - k) as nat),
                        t <= n - 1,
                        fs@ == spec_shift_down(m0, path@, (count - t) as nat, count as nat),
                    decreases n - t,
                {
                    let ghost before = fs@;
                    let src = ops[t].0.as_str();
                    let dst = ops[t].1.as_str();
                    fs.rename(src, dst);
                    proof {
                        let s = (count - t - 1) as nat;
                        lemma_shift_unfold(m0, path@, s, count as nat);
                        assert(spec_shift_one(before, path@, s) == fs@);
                    }
                    t = t + 1;
                }
                proof {
                    lemma_shift_preserves_base(m0, path@, 1, count as nat);
                }
                let first = backup_path(path, 1);
                fs.rename(path, first.as_str());
            }
        },
    }
}

} // verus!
