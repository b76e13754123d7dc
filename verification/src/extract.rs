use vstd::prelude::*;

verus! {

/// The positions `i < n` with `flags[i] == want`, in increasing order.
pub open spec fn picked_indices(flags: Seq<bool>, want: bool, n: int) -> Seq<usize>
    decreases n
{
    if n <= 0 {
        Seq::empty()
    } else if flags[n - 1] == want {
        picked_indices(flags, want, n - 1).push((n - 1) as usize)
    } else {
        picked_indices(flags, want, n - 1)
    }
}

/// The order in which an archive's entries are applied to a filesystem:
/// every entry that is not a directory first, in archive order, then every
/// directory entry, in archive order. Directories are deferred so that a
/// directory's permission bits (which may be read-only) cannot block the
/// creation of its own descendants.
///
/// `is_dir[i]` says whether entry `i` of the archive is a directory; the
/// result lists each entry index exactly once, in the order to apply.
pub fn extraction_order(is_dir: &Vec<bool>) -> (order: Vec<usize>)
    ensures
        order@ == picked_indices(is_dir@, false, is_dir@.len() as int) + picked_indices(
            is_dir@,
            true,
            is_dir@.len() as int,
        ),
{
    let n = is_dir.len();
    let mut order: Vec<usize> = Vec::new();
    let mut i: usize = 0;
    while i < n
        invariant
            0 <= i <= n,
            n == is_dir@.len(),
            order@ == picked_indices(is_dir@, false, i as int),
        decreases n - i,
    {
        if !is_dir[i] {
            order.push(i);
        }
        i += 1;
    }
    let ghost files = order@;
    let mut i: usize = 0;
    while i < n
        invariant
            0 <= i <= n,
            n == is_dir@.len(),
            files == picked_indices(is_dir@, false, n as int),
            order@ == files + picked_indices(is_dir@, true, i as int),
        decreases n - i,
    {
        if is_dir[i] {
            order.push(i);
            proof {
                assert(order@ =~= files + picked_indices(is_dir@, true, i + 1));
            }
        }
        i += 1;
    }
    order
}

proof fn lemma_picked_members(flags: Seq<bool>, want: bool, n: int)
    requires
        0 <= n <= flags.len(),
        n <= usize::MAX,
    ensures
        forall|j: int|
            0 <= j < picked_indices(flags, want, n).len() ==> 0 <= #[trigger] picked_indices(
                flags,
                want,
                n,
            )[j] < n && flags[picked_indices(flags, want, n)[j] as int] == want,
    decreases n,
{
    if n > 0 {
        lemma_picked_members(flags, want, n - 1);
        let p = picked_indices(flags, want, n);
        let q = picked_indices(flags, want, n - 1);
        assert forall|j: int| 0 <= j < p.len() implies 0 <= #[trigger] p[j] < n && flags[p[j] as int]
            == want by {
            if flags[n - 1] == want {
                if j < q.len() {
                    assert(p[j] == q[j]);
                } else {
                    assert(p[j] == (n - 1) as usize);
                }
            } else {
                assert(p[j] == q[j]);
            }
        }
    }
}

proof fn lemma_picked_complete(flags: Seq<bool>, want: bool, n: int, i: int)
    requires
        0 <= i < n <= flags.len(),
        n <= usize::MAX,
        flags[i] == want,
    ensures
        picked_indices(flags, want, n).contains(i as usize),
    decreases n,
{
    if i == n - 1 {
        assert(picked_indices(flags, want, n).last() == i as usize);
    } else {
        lemma_picked_complete(flags, want, n - 1, i);
        let k = choose|k: int|
            0 <= k < picked_indices(flags, want, n - 1).len() && #[trigger] picked_indices(
                flags,
                want,
                n - 1,
            )[k] == i as usize;
        if flags[n - 1] == want {
            assert(picked_indices(flags, want, n)[k] == i as usize);
        } else {
            assert(picked_indices(flags, want, n)[k] == i as usize);
        }
    }
}

/// Law: the extraction order lists every entry of the archive, each listed
/// position names a real entry, and every entry that is not a directory
/// stands before every directory entry, so a directory's permissions are
/// applied only after all of its descendants exist.
pub proof fn lemma_extraction_order_defers_directories(is_dir: Seq<bool>, order: Seq<usize>)
    requires
        is_dir.len() <= usize::MAX,
        order == picked_indices(is_dir, false, is_dir.len() as int) + picked_indices(
            is_dir,
            true,
            is_dir.len() as int,
        ),
    ensures
        forall|j: int| 0 <= j < order.len() ==> 0 <= #[trigger] order[j] < is_dir.len(),
        forall|i: int| 0 <= i < is_dir.len() ==> order.contains(#[trigger] (i as usize)),
        forall|a: int, b: int|
            (0 <= a < order.len() && 0 <= b < order.len() && is_dir[order[a] as int]
                && !is_dir[order[b] as int]) ==> b < a,
{
    let n = is_dir.len() as int;
    let files = picked_indices(is_dir, false, n);
    let dirs = picked_indices(is_dir, true, n);
    lemma_picked_members(is_dir, false, n);
    lemma_picked_members(is_dir, true, n);
    assert forall|i: int| 0 <= i < is_dir.len() implies order.contains(#[trigger] (i as usize)) by {
        if is_dir[i] {
            lemma_picked_complete(is_dir, true, n, i);
            let k = choose|k: int| 0 <= k < dirs.len() && dirs[k] == i as usize;
            assert(order[files.len() + k] == i as usize);
        } else {
            lemma_picked_complete(is_dir, false, n, i);
            let k = choose|k: int| 0 <= k < files.len() && files[k] == i as usize;
            assert(order[k] == i as usize);
        }
    }
    assert forall|a: int, b: int|
        (0 <= a < order.len() && 0 <= b < order.len() && is_dir[order[a] as int]
            && !is_dir[order[b] as int]) implies b < a by {
        assert(a < files.len() ==> order[a] == files[a]);
        assert(a >= files.len() ==> order[a] == dirs[a - files.len()]);
        assert(b < files.len() ==> order[b] == files[b]);
        assert(b >= files.len() ==> order[b] == dirs[b - files.len()]);
    }
}

}
