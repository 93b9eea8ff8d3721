//! Spreading the copies of each block over the enabled accounts.
use vstd::prelude::*;
use crate::tables::CloudFileBlock;

verus! {

/// How many accounts each block should have a copy on: the accounts drawn, at most `max_shard`.
pub fn shard_target(cloud_count: usize, max_shard: usize) -> (n: usize)
    ensures
        n == if cloud_count < max_shard { cloud_count } else { max_shard },
{
    if cloud_count < max_shard {
        cloud_count
    } else {
        max_shard
    }
}

/// Of the first `k` copies, the positions of those on an account that was not drawn.
pub open spec fn stray_indices(copies: Seq<CloudFileBlock>, clouds: Seq<i32>, k: int) -> Seq<usize>
    decreases k,
{
    if k <= 0 {
        Seq::empty()
    } else if clouds.contains(copies[k - 1].cloud_meta_id) {
        stray_indices(copies, clouds, k - 1)
    } else {
        stray_indices(copies, clouds, k - 1).push((k - 1) as usize)
    }
}

/// Of the first `k` copies, the accounts of those on a drawn account, in order.
pub open spec fn used_clouds(copies: Seq<CloudFileBlock>, clouds: Seq<i32>, k: int) -> Seq<i32>
    decreases k,
{
    if k <= 0 {
        Seq::empty()
    } else if clouds.contains(copies[k - 1].cloud_meta_id) {
        used_clouds(copies, clouds, k - 1).push(copies[k - 1].cloud_meta_id)
    } else {
        used_clouds(copies, clouds, k - 1)
    }
}

/// The copies of a block sorted out: those to remove, and the accounts still in use.
pub struct CopySort {
    pub remove_index: Vec<usize>,
    pub using: Vec<i32>,
}

fn contains_id(ids: &Vec<i32>, id: i32) -> (b: bool)
    ensures
        b == ids@.contains(id),
{
    let mut i: usize = 0;
    while i < ids.len()
        invariant
            i <= ids@.len(),
            forall|j: int| 0 <= j < i ==> ids@[j] != id,
        decreases ids.len() - i,
    {
        if ids[i] == id {
            return true;
        }
        i = i + 1;
    }
    false
}

/// The accounts of the first `k` copies that lie on a drawn account, in order.
pub open spec fn drawn_accounts(copies: Seq<CloudFileBlock>, clouds: Seq<i32>, k: int) -> Seq<i32> {
    copies.take(k).map_values(|c: CloudFileBlock| c.cloud_meta_id).filter(|id: i32| clouds.contains(id))
}

/// A copy is sorted out for removal exactly when its account is not among the drawn
/// accounts: the positions listed are those copies, each once and in increasing order,
/// and the accounts kept are those of all other copies, in the order of the copies.
pub proof fn copies_sorted_by_drawn_account(copies: Seq<CloudFileBlock>, clouds: Seq<i32>, k: int)
    requires
        0 <= k <= copies.len(),
        copies.len() <= usize::MAX,
    ensures
        forall|j: int| 0 <= j < stray_indices(copies, clouds, k).len() ==> {
            let i = #[trigger] stray_indices(copies, clouds, k)[j] as int;
            0 <= i < k && !clouds.contains(copies[i].cloud_meta_id)
        },
        forall|i: int| 0 <= i < k && !clouds.contains(#[trigger] copies[i].cloud_meta_id)
            ==> stray_indices(copies, clouds, k).contains(i as usize),
        forall|a: int, b: int| 0 <= a < b < stray_indices(copies, clouds, k).len()
            ==> stray_indices(copies, clouds, k)[a] < stray_indices(copies, clouds, k)[b],
        used_clouds(copies, clouds, k) == drawn_accounts(copies, clouds, k),
    decreases k,
{
    let s = stray_indices(copies, clouds, k);
    if k > 0 {
        copies_sorted_by_drawn_account(copies, clouds, k - 1);
        let prev = stray_indices(copies, clouds, k - 1);
        let f = |c: CloudFileBlock| c.cloud_meta_id;
        let p = |id: i32| clouds.contains(id);
        assert(copies.take(k) =~= copies.take(k - 1).push(copies[k - 1]));
        assert(copies.take(k).map_values(f) =~= copies.take(k - 1).map_values(f).push(copies[k - 1].cloud_meta_id));
        copies.take(k - 1).map_values(f).lemma_filter_push(copies[k - 1].cloud_meta_id, p);
        if !clouds.contains(copies[k - 1].cloud_meta_id) {
            assert(s == prev.push((k - 1) as usize));
            assert forall|i: int| 0 <= i < k && !clouds.contains(#[trigger] copies[i].cloud_meta_id)
                implies s.contains(i as usize) by {
                if i < k - 1 {
                    let j = choose|j: int| 0 <= j < prev.len() && prev[j] == i as usize;
                    assert(s[j] == i as usize);
                } else {
                    assert(s[prev.len() as int] == i as usize);
                }
            }
        } else {
            assert(s == prev);
        }
    } else {
        assert(copies.take(k).map_values(|c: CloudFileBlock| c.cloud_meta_id) =~= Seq::<i32>::empty());
        reveal(Seq::filter);
    }
}

/// Sorts the copies of a block by whether their account was drawn.
pub fn sort_copies(copies: &Vec<CloudFileBlock>, clouds: &Vec<i32>) -> (r: CopySort)
    ensures
        r.remove_index@ == stray_indices(copies@, clouds@, copies@.len() as int),
        r.using@ == used_clouds(copies@, clouds@, copies@.len() as int),
        forall|j: int| 0 <= j < r.remove_index@.len() ==> {
            let i = #[trigger] r.remove_index@[j] as int;
            0 <= i < copies@.len() && !clouds@.contains(copies@[i].cloud_meta_id)
        },
        forall|i: int| 0 <= i < copies@.len() && !clouds@.contains(#[trigger] copies@[i].cloud_meta_id)
            ==> r.remove_index@.contains(i as usize),
        forall|a: int, b: int| 0 <= a < b < r.remove_index@.len()
            ==> r.remove_index@[a] < r.remove_index@[b],
        r.using@ == drawn_accounts(copies@, clouds@, copies@.len() as int),
{
    let mut remove_index: Vec<usize> = Vec::new();
    let mut using: Vec<i32> = Vec::new();
    let mut i: usize = 0;
    while i < copies.len()
        invariant
            i <= copies@.len(),
            remove_index@ == stray_indices(copies@, clouds@, i as int),
            using@ == used_clouds(copies@, clouds@, i as int),
        decreases copies.len() - i,
    {
        let id = copies[i].cloud_meta_id;
        if contains_id(clouds, id) {
            using.push(id);
        } else {
            remove_index.push(i);
        }
        i = i + 1;
    }
    proof {
        copies_sorted_by_drawn_account(copies@, clouds@, i as int);
    }
    CopySort { remove_index, using }
}

/// The length of a list of `len` after removing, one after the other, the items at
/// `indices[0..k]`; `None` once an index lies past the end of the shortened list.
pub open spec fn after_removals(len: int, indices: Seq<usize>, k: int) -> Option<int>
    decreases k,
{
    if k <= 0 {
        Some(len)
    } else {
        match after_removals(len, indices, k - 1) {
            Some(cur) => if indices[k - 1] >= cur { None } else { Some(cur - 1) },
            None => None,
        }
    }
}

/// How many copies are left after removing the stray ones one by one; `None` where a
/// removal falls past the end of the shortened list, which stops the task.
pub fn copies_after_removal(len: usize, indices: &Vec<usize>) -> (r: Option<usize>)
    ensures
        match after_removals(len as int, indices@, indices@.len() as int) {
            Some(n) => r == Some(n as usize),
            None => r is None,
        },
{
    let mut cur: usize = len;
    let mut k: usize = 0;
    while k < indices.len()
        invariant
            k <= indices@.len(),
            after_removals(len as int, indices@, k as int) == Some(cur as int),
            cur <= len,
        decreases indices.len() - k,
    {
        if indices[k] >= cur {
            assert(after_removals(len as int, indices@, k as int + 1) is None);
            let ghost kk = k as int + 1;
            assert forall|j: int| kk <= j <= indices@.len() implies after_removals(len as int, indices@, j) is None by {
                lemma_removals_stay_none(len as int, indices@, kk, j);
            }
            return None;
        }
        cur = cur - 1;
        k = k + 1;
    }
    Some(cur)
}

proof fn lemma_removals_stay_none(len: int, indices: Seq<usize>, k: int, j: int)
    requires
        0 <= k <= j,
        after_removals(len, indices, k) is None,
    ensures
        after_removals(len, indices, j) is None,
    decreases j - k,
{
    if j > k {
        lemma_removals_stay_none(len, indices, k, j - 1);
    }
}

/// One draw of an account for a new copy of a block.
#[derive(Debug, PartialEq, Eq, Structural, Clone, Copy)]
pub enum CloudPick {
    /// Every drawn account already holds a copy: no copy is added.
    Full,
    /// The account drawn holds a copy already: draw again.
    Retry,
    /// Put a new copy on this account.
    Take(i32),
}

/// The draw of the account at `random % clouds.len()` against the accounts in use.
pub open spec fn pick_spec(random: int, clouds: Seq<i32>, using: Seq<i32>) -> CloudPick {
    let drawn = clouds[random % (clouds.len() as int)];
    if using.len() >= clouds.len() {
        CloudPick::Full
    } else if using.contains(drawn) {
        CloudPick::Retry
    } else {
        CloudPick::Take(drawn)
    }
}

/// Draws the account at `random % clouds.len()`; stops when every account is in use.
pub fn pick_cloud(random: usize, clouds: &Vec<i32>, using: &Vec<i32>) -> (p: CloudPick)
    requires
        clouds@.len() > 0,
    ensures
        p == pick_spec(random as int, clouds@, using@),
{
    let index = random % clouds.len();
    let cloud_id = clouds[index];
    if using.len() >= clouds.len() {
        return CloudPick::Full;
    }
    if contains_id(using, cloud_id) {
        return CloudPick::Retry;
    }
    CloudPick::Take(cloud_id)
}

/// No block gets two copies in one account: an account taken by a draw is one of the
/// accounts and holds no copy yet, so the accounts in use stay distinct.
pub proof fn draws_keep_copies_apart(random: int, clouds: Seq<i32>, using: Seq<i32>)
    requires
        clouds.len() > 0,
        0 <= random,
        using.no_duplicates(),
    ensures
        pick_spec(random, clouds, using) matches CloudPick::Take(id) ==> clouds.contains(id) && !using.contains(id)
            && using.push(id).no_duplicates(),
{
    if let CloudPick::Take(id) = pick_spec(random, clouds, using) {
        let k = random % (clouds.len() as int);
        assert(clouds[k] == id);
        let u2 = using.push(id);
        assert forall|i: int, j: int| 0 <= i < u2.len() && 0 <= j < u2.len() && i != j implies u2[i] != u2[j] by {
            if i == using.len() {
                assert(u2[j] == using[j]);
                assert(using.contains(using[j]));
            } else if j == using.len() {
                assert(u2[i] == using[i]);
                assert(using.contains(using[i]));
            } else {
                assert(u2[i] == using[i] && u2[j] == using[j]);
            }
        }
    }
}

/// The accounts of `clouds` are not all used by the distinct accounts of `cur` when
/// there are fewer of those: one of them is free.
proof fn lemma_free_account(clouds: Seq<i32>, cur: Seq<i32>) -> (k: int)
    requires
        clouds.no_duplicates(),
        cur.no_duplicates(),
        cur.len() < clouds.len(),
    ensures
        0 <= k < clouds.len(),
        !cur.contains(clouds[k]),
{
    broadcast use vstd::seq_lib::seq_to_set_is_finite;
    if forall|j: int| 0 <= j < clouds.len() ==> cur.contains(#[trigger] clouds[j]) {
        clouds.unique_seq_to_set();
        cur.unique_seq_to_set();
        assert(clouds.to_set().subset_of(cur.to_set())) by {
            assert forall|c: i32| clouds.to_set().contains(c) implies cur.to_set().contains(c) by {
                let j = choose|j: int| 0 <= j < clouds.len() && clouds[j] == c;
                assert(cur.contains(clouds[j]));
            }
        }
        vstd::set_lib::lemma_len_subset(clouds.to_set(), cur.to_set());
        assert(false);
        0
    } else {
        choose|j: int| 0 <= j < clouds.len() && !cur.contains(clouds[j])
    }
}

/// The accounts a run of draws placed copies on, after those already in use: copy `i`
/// went to the account that the draw of random number `draws[i]` took from the ones in use
/// before it.
pub open spec fn placed_by_draws(clouds: Seq<i32>, using: Seq<i32>, draws: Seq<int>, takes: Seq<i32>) -> bool {
    &&& draws.len() == takes.len()
    &&& forall|i: int|
        0 <= i < takes.len() ==> 0 <= #[trigger] draws[i] && pick_spec(draws[i], clouds, using + takes.take(i))
            == CloudPick::Take(takes[i])
}

/// Rebalancing fills a block up to its target: starting from copies on distinct accounts of
/// `clouds`, no more than the target `size` (at most the number of accounts), the copies
/// that draws place keep every account distinct and among `clouds`, and while fewer than
/// `size` copies are there, no draw finds every account used and some draw places a copy;
/// so the block ends with exactly `size` copies on distinct accounts.
pub proof fn rebalance_reaches_target(
    clouds: Seq<i32>,
    using: Seq<i32>,
    draws: Seq<int>,
    takes: Seq<i32>,
    size: int,
)
    requires
        clouds.no_duplicates(),
        using.no_duplicates(),
        forall|j: int| 0 <= j < using.len() ==> clouds.contains(#[trigger] using[j]),
        using.len() <= size <= clouds.len(),
        takes.len() <= size - using.len(),
        placed_by_draws(clouds, using, draws, takes),
    ensures
        (using + takes).no_duplicates(),
        forall|j: int| 0 <= j < (using + takes).len() ==> clouds.contains(#[trigger] (using + takes)[j]),
        (using + takes).len() == using.len() + takes.len(),
        takes.len() < size - using.len() ==> (forall|r: int| 0 <= r ==> #[trigger] pick_spec(r, clouds, using + takes)
            != CloudPick::Full),
        takes.len() < size - using.len() ==> (exists|r: int|
            0 <= r && #[trigger] pick_spec(r, clouds, using + takes) is Take),
    decreases takes.len(),
{
    let all = using + takes;
    if takes.len() == 0 {
        assert(all =~= using);
    } else {
        let init = takes.drop_last();
        let dinit = draws.drop_last();
        let n = takes.len() - 1;
        assert forall|i: int| 0 <= i < init.len() implies 0 <= #[trigger] dinit[i] && pick_spec(
            dinit[i],
            clouds,
            using + init.take(i),
        ) == CloudPick::Take(init[i]) by {
            assert(init.take(i) =~= takes.take(i));
            assert(dinit[i] == draws[i]);
            assert(init[i] == takes[i]);
        }
        rebalance_reaches_target(clouds, using, dinit, init, size);
        let before = using + init;
        assert(takes.take(n) =~= init);
        let r = draws[n];
        assert(pick_spec(r, clouds, before) == CloudPick::Take(takes[n]));
        draws_keep_copies_apart(r, clouds, before);
        assert(all =~= before.push(takes[n]));
        assert forall|j: int| 0 <= j < all.len() implies clouds.contains(#[trigger] all[j]) by {
            if j < before.len() {
                assert(all[j] == before[j]);
            }
        }
    }
    if takes.len() < size - using.len() {
        assert forall|r: int| 0 <= r implies #[trigger] pick_spec(r, clouds, all) != CloudPick::Full by {}
        let k = lemma_free_account(clouds, all);
        assert(k % (clouds.len() as int) == k) by (nonlinear_arith)
            requires
                0 <= k < clouds.len(),
        ;
        assert(pick_spec(k, clouds, all) is Take);
    }
}

/// The accounts a run of random draws places new copies on, until `needed` copies are
/// placed, and how many draws that takes: a draw that takes an account places a copy
/// there, one that meets a used account is drawn again, and one that finds every account
/// used ends the run.
pub open spec fn fill_spec(clouds: Seq<i32>, using: Seq<i32>, needed: int, draws: Seq<usize>) -> (Seq<i32>, int)
    decreases draws.len(),
{
    if needed <= 0 || draws.len() == 0 {
        (Seq::empty(), 0)
    } else {
        match pick_spec(draws[0] as int, clouds, using) {
            CloudPick::Take(c) => {
                let (t, u) = fill_spec(clouds, using.push(c), needed - 1, draws.drop_first());
                (seq![c] + t, u + 1)
            },
            CloudPick::Retry => {
                let (t, u) = fill_spec(clouds, using, needed, draws.drop_first());
                (t, u + 1)
            },
            CloudPick::Full => (Seq::empty(), 1),
        }
    }
}

/// Places up to `needed` new copies of block `file_block_id`, each on the account a draw of
/// `draws` takes, in order, made at time `now`; the accounts taken join `using`. Returns the
/// new copies and how many draws were used.
pub fn place_copies(
    file_block_id: i64,
    clouds: &Vec<i32>,
    using: &mut Vec<i32>,
    needed: usize,
    draws: &Vec<usize>,
    now: i64,
) -> (r: (Vec<CloudFileBlock>, usize))
    requires
        clouds@.len() > 0,
    ensures
        final(using)@ == old(using)@ + fill_spec(clouds@, old(using)@, needed as int, draws@).0,
        r.1 == fill_spec(clouds@, old(using)@, needed as int, draws@).1,
        r.0@.len() == fill_spec(clouds@, old(using)@, needed as int, draws@).0.len(),
        forall|k: int| 0 <= k < r.0@.len() ==> #[trigger] r.0@[k] == CloudFileBlock::init_spec(
            file_block_id,
            fill_spec(clouds@, old(using)@, needed as int, draws@).0[k],
            now,
        ),
{
    let ghost start = using@;
    let ghost total = fill_spec(clouds@, start, needed as int, draws@);
    let mut copies: Vec<CloudFileBlock> = Vec::new();
    let ghost mut taken: Seq<i32> = Seq::empty();
    let mut i: usize = 0;
    assert(draws@.skip(0) =~= draws@);
    while i < draws.len() && copies.len() < needed
        invariant
            clouds@.len() > 0,
            i <= draws@.len(),
            copies@.len() == taken.len(),
            copies@.len() <= needed,
            using@ == start + taken,
            start == old(using)@,
            total == fill_spec(clouds@, start, needed as int, draws@),
            total.0 == taken + fill_spec(clouds@, using@, needed - copies@.len(), draws@.skip(i as int)).0,
            total.1 == i + fill_spec(clouds@, using@, needed - copies@.len(), draws@.skip(i as int)).1,
            forall|k: int| 0 <= k < copies@.len() ==> #[trigger] copies@[k] == CloudFileBlock::init_spec(
                file_block_id,
                taken[k],
                now,
            ),
        decreases draws.len() - i,
    {
        let ghost rest = draws@.skip(i as int);
        let ghost n = needed - copies@.len();
        assert(rest[0] == draws@[i as int]);
        assert(rest.drop_first() =~= draws@.skip(i as int + 1));
        match pick_cloud(draws[i], clouds, using) {
            CloudPick::Take(c) => {
                let ghost before = using@;
                using.push(c);
                copies.push(CloudFileBlock::init_at(file_block_id, c, now));
                proof {
                    let t2 = fill_spec(clouds@, before.push(c), n - 1, draws@.skip(i as int + 1));
                    assert(total.0 =~= taken.push(c) + t2.0);
                    taken = taken.push(c);
                    assert(using@ =~= start + taken);
                }
            },
            CloudPick::Retry => {},
            CloudPick::Full => {
                proof {
                    assert(fill_spec(clouds@, using@, n, rest) == (Seq::<i32>::empty(), 1int));
                    assert(total.0 =~= taken);
                    assert(total.1 == i + 1);
                    assert(using@ == start + total.0);
                }
                return (copies, i + 1);
            },
        }
        i = i + 1;
    }
    proof {
        let rest = draws@.skip(i as int);
        if i == draws.len() {
            assert(rest.len() == 0);
        }
        assert(fill_spec(clouds@, using@, needed - copies@.len(), rest) == (Seq::<i32>::empty(), 0int));
        assert(total.0 =~= taken);
    }
    (copies, i)
}

/// Placing copies fills a block to its target: from copies on distinct accounts of `clouds`,
/// with room among the accounts for `needed` more, the draws place copies on accounts that
/// are among `clouds` and distinct from each other and from those in use, never more than
/// `needed`, and fewer only when the draws run out.
pub proof fn placed_copies_fill_target(clouds: Seq<i32>, using: Seq<i32>, needed: int, draws: Seq<usize>)
    requires
        clouds.no_duplicates(),
        using.no_duplicates(),
        forall|j: int| 0 <= j < using.len() ==> clouds.contains(#[trigger] using[j]),
        0 <= needed,
        using.len() + needed <= clouds.len(),
    ensures
        (using + fill_spec(clouds, using, needed, draws).0).no_duplicates(),
        forall|j: int|
            0 <= j < (using + fill_spec(clouds, using, needed, draws).0).len() ==> clouds.contains(
                #[trigger] (using + fill_spec(clouds, using, needed, draws).0)[j],
            ),
        fill_spec(clouds, using, needed, draws).0.len() <= needed,
        fill_spec(clouds, using, needed, draws).0.len() < needed ==> fill_spec(clouds, using, needed, draws).1
            == draws.len(),
    decreases draws.len(),
{
    let (taken, used) = fill_spec(clouds, using, needed, draws);
    if needed <= 0 || draws.len() == 0 {
        assert(using + taken =~= using);
    } else {
        let r = draws[0] as int;
        match pick_spec(r, clouds, using) {
            CloudPick::Take(c) => {
                draws_keep_copies_apart(r, clouds, using);
                let u2 = using.push(c);
                assert forall|j: int| 0 <= j < u2.len() implies clouds.contains(#[trigger] u2[j]) by {
                    if j < using.len() {
                        assert(u2[j] == using[j]);
                    }
                }
                placed_copies_fill_target(clouds, u2, needed - 1, draws.drop_first());
                let f2 = fill_spec(clouds, u2, needed - 1, draws.drop_first());
                let t2 = f2.0;
                assert(taken == seq![c] + t2);
                assert(used == f2.1 + 1);
                assert(using + taken =~= u2 + t2);
            },
            CloudPick::Retry => {
                placed_copies_fill_target(clouds, using, needed, draws.drop_first());
                let f2 = fill_spec(clouds, using, needed, draws.drop_first());
                assert(taken == f2.0);
                assert(used == f2.1 + 1);
            },
            CloudPick::Full => {
                assert(false);
            },
        }
    }
}

} // verus!
