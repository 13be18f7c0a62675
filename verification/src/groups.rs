use vstd::prelude::*;
use crate::values::{identity_sel, usize_sel};

verus! {

/// A partition of the rows of a source column into groups.
///
/// The two representations are never mixed within one partition. Index-list
/// groups may be non-contiguous, unsorted, or contain duplicate rows; slice
/// groups are contiguous `(start, length)` ranges.
pub enum GroupsType {
    /// Explicit ordered row indices per group.
    Idx(Vec<Vec<usize>>),
    /// One contiguous `(start, length)` range per group.
    Slice(Vec<(usize, usize)>),
}

impl GroupsType {
    pub open spec fn num_groups(&self) -> nat {
        match self {
            GroupsType::Idx(gs) => gs@.len(),
            GroupsType::Slice(gs) => gs@.len(),
        }
    }

    /// Declared length of group `i`.
    pub open spec fn len_of(&self, i: int) -> nat {
        match self {
            GroupsType::Idx(gs) => gs@[i]@.len(),
            GroupsType::Slice(gs) => gs@[i].1 as nat,
        }
    }

    /// Row selection of group `i`: the source positions of its elements,
    /// in order.
    pub open spec fn sel(&self, i: int) -> Seq<int> {
        match self {
            GroupsType::Idx(gs) => Seq::new(gs@[i]@.len(), |j: int| gs@[i]@[j] as int),
            GroupsType::Slice(gs) => Seq::new(gs@[i].1 as nat, |j: int| gs@[i].0 + j),
        }
    }

    /// Concatenated selections of the first `k` groups.
    pub open spec fn flat_sel_up_to(&self, k: int) -> Seq<int>
        decreases k,
    {
        if k <= 0 {
            Seq::empty()
        } else {
            self.flat_sel_up_to(k - 1) + self.sel(k - 1)
        }
    }

    /// The combined selection of the whole partition, group by group.
    pub open spec fn flat_sel(&self) -> Seq<int> {
        self.flat_sel_up_to(self.num_groups() as int)
    }

    /// Cumulative length of the first `k` groups: entry `k` of the offsets
    /// sequence every aggregation strategy produces.
    pub open spec fn off(&self, k: int) -> int
        decreases k,
    {
        if k <= 0 {
            0
        } else {
            self.off(k - 1) + self.len_of(k - 1)
        }
    }

    /// Total number of elements selected by the partition.
    pub open spec fn total_len(&self) -> int {
        self.off(self.num_groups() as int)
    }

    /// Every selected position is a valid row of a source column of `n` rows.
    pub open spec fn in_bounds(&self, n: nat) -> bool {
        forall|i: int, j: int|
            0 <= i < self.num_groups() && 0 <= j < self.len_of(i) ==> 0 <= #[trigger] self.sel(
                i,
            )[j] < n
    }

    /// True iff no group is empty: the condition under which the aggregated
    /// list column may carry the fast-explode flag.
    pub open spec fn all_nonempty(&self) -> bool {
        forall|i: int| 0 <= i < self.num_groups() ==> self.len_of(i) > 0
    }

}

impl GroupsType {
    /// Derives the offsets sequence and the fast-explode flag from the
    /// partition: the one shared computation behind every aggregation
    /// strategy, so that paths which must stay behaviorally identical cannot
    /// diverge.
    pub fn group_offsets(&self) -> (r: (Vec<usize>, bool))
        requires
            self.total_len() <= usize::MAX,
        ensures
            r.0@.len() == self.num_groups() + 1,
            forall|k: int| 0 <= k <= self.num_groups() ==> #[trigger] r.0@[k] == self.off(k),
            r.1 == self.all_nonempty(),
    {
        let num = match self {
            GroupsType::Idx(gs) => gs.len(),
            GroupsType::Slice(gs) => gs.len(),
        };
        let mut offsets: Vec<usize> = Vec::new();
        let mut length_so_far: usize = 0;
        offsets.push(0);
        let mut can_fast_explode = true;
        let mut gi: usize = 0;
        while gi < num
            invariant
                self.total_len() <= usize::MAX,
                num == self.num_groups(),
                gi <= num,
                offsets@.len() == gi + 1,
                forall|k: int| 0 <= k <= gi ==> #[trigger] offsets@[k] == self.off(k),
                length_so_far == self.off(gi as int),
                can_fast_explode == (forall|k: int| 0 <= k < gi ==> self.len_of(k) > 0),
            decreases num - gi,
        {
            let len = match self {
                GroupsType::Idx(gs) => gs[gi].len(),
                GroupsType::Slice(gs) => gs[gi].1,
            };
            if len == 0 {
                can_fast_explode = false;
            }
            proof {
                assert(self.off(gi + 1) == self.off(gi as int) + self.len_of(gi as int));
                lemma_off_monotonic(self, gi + 1, self.num_groups() as int);
            }
            length_so_far = length_so_far + len;
            offsets.push(length_so_far);
            gi += 1;
        }
        (offsets, can_fast_explode)
    }

    /// Converts the partition into the combined gather-and-offsets
    /// specification: offsets and fast-explode from `group_offsets`, and one
    /// flat index sequence encoding every group's selection — or no index
    /// sequence at all when the partition is slice-form and tiles the whole
    /// source contiguously, in which case the source can be used as the
    /// concatenated values without any randomized lookup.
    pub fn prepare_list_agg(&self, src_len: usize) -> (r: (Option<Vec<usize>>, Vec<usize>, bool))
        requires
            self.in_bounds(src_len as nat),
            self.total_len() <= usize::MAX,
        ensures
            r.1@.len() == self.num_groups() + 1,
            forall|k: int| 0 <= k <= self.num_groups() ==> #[trigger] r.1@[k] == self.off(k),
            r.2 == self.all_nonempty(),
            match r.0 {
                Some(g) => usize_sel(g@) == self.flat_sel(),
                None => self.flat_sel() == identity_sel(src_len as nat),
            },
    {
        let (offsets, can_fast_explode) = self.group_offsets();
        let num = match self {
            GroupsType::Idx(gs) => gs.len(),
            GroupsType::Slice(gs) => gs.len(),
        };
        match self {
            GroupsType::Idx(_) => {
                let gather = self.flat_indices();
                (Some(gather), offsets, can_fast_explode)
            },
            GroupsType::Slice(gs) => {
                let mut tiled = offsets[num] == src_len;
                let mut gi: usize = 0;
                while gi < num
                    invariant
                        num == self.num_groups(),
                        self matches GroupsType::Slice(v) && v@ == gs@,
                        gi <= num,
                        offsets@.len() == num + 1,
                        forall|k: int| 0 <= k <= num ==> #[trigger] offsets@[k] == self.off(k),
                        tiled ==> self.total_len() == src_len,
                        tiled == (self.total_len() == src_len && forall|k: int|
                            0 <= k < gi ==> #[trigger] gs@[k].0 == self.off(k)),
                    decreases num - gi,
                {
                    if gs[gi].0 != offsets[gi] {
                        tiled = false;
                    }
                    gi += 1;
                }
                if tiled {
                    proof {
                        lemma_tiling_flat_sel(self, src_len as nat, self.num_groups() as int);
                    }
                    (None, offsets, can_fast_explode)
                } else {
                    let gather = self.flat_indices();
                    (Some(gather), offsets, can_fast_explode)
                }
            },
        }
    }

    /// The flat index sequence of the whole partition: every group's
    /// selection, concatenated in group order.
    pub fn flat_indices(&self) -> (r: Vec<usize>)
        requires
            self.in_bounds(usize::MAX as nat + 1),
        ensures
            usize_sel(r@) == self.flat_sel(),
    {
        let num = match self {
            GroupsType::Idx(gs) => gs.len(),
            GroupsType::Slice(gs) => gs.len(),
        };
        let mut gather: Vec<usize> = Vec::new();
        let mut gi: usize = 0;
        while gi < num
            invariant
                self.in_bounds(usize::MAX as nat + 1),
                num == self.num_groups(),
                gi <= num,
                usize_sel(gather@) == self.flat_sel_up_to(gi as int),
            decreases num - gi,
        {
            let ghost flat_prev = self.flat_sel_up_to(gi as int);
            let glen = match self {
                GroupsType::Idx(gs) => gs[gi].len(),
                GroupsType::Slice(gs) => gs[gi].1,
            };
            let mut j: usize = 0;
            while j < glen
                invariant
                    self.in_bounds(usize::MAX as nat + 1),
                    num == self.num_groups(),
                    gi < num,
                    glen == self.len_of(gi as int),
                    j <= glen,
                    gather@.len() == flat_prev.len() + j,
                    usize_sel(gather@).subrange(0, flat_prev.len() as int) == flat_prev,
                    forall|q: int|
                        0 <= q < j ==> #[trigger] gather@[flat_prev.len() + q] as int == self.sel(
                            gi as int,
                        )[q],
                decreases glen - j,
            {
                proof {
                    assert(0 <= self.sel(gi as int)[j as int] < usize::MAX as nat + 1);
                }
                let idx: usize = match self {
                    GroupsType::Idx(gs) => gs[gi][j],
                    GroupsType::Slice(gs) => gs[gi].0 + j,
                };
                proof {
                    let pl = flat_prev.len() as int;
                    assert(usize_sel(gather@.push(idx)).subrange(0, pl) =~= usize_sel(
                        gather@,
                    ).subrange(0, pl));
                }
                gather.push(idx);
                j += 1;
            }
            proof {
                let pl = flat_prev.len() as int;
                let target = flat_prev + self.sel(gi as int);
                assert(self.flat_sel_up_to(gi + 1) == target);
                assert forall|p: int| 0 <= p < gather@.len() implies usize_sel(gather@)[p]
                    == target[p] by {
                    if p < pl {
                        assert(usize_sel(gather@).subrange(0, pl)[p] == usize_sel(gather@)[p]);
                    } else {
                        assert(gather@[pl + (p - pl)] as int == self.sel(gi as int)[p - pl]);
                    }
                }
                assert(usize_sel(gather@) =~= target);
            }
            gi += 1;
        }
        gather
    }
}

/// When slice groups tile the source contiguously from the start, the
/// combined selection is the identity: gathering along it reads the source
/// back unchanged.
pub proof fn lemma_tiling_flat_sel(g: &GroupsType, n: nat, k: int)
    requires
        g matches GroupsType::Slice(gs) && forall|i: int|
            0 <= i < g.num_groups() ==> #[trigger] gs@[i].0 == g.off(i),
        g.total_len() == n,
        0 <= k <= g.num_groups(),
    ensures
        g.flat_sel_up_to(k) == identity_sel(n).subrange(0, g.off(k)),
    decreases k,
{
    lemma_off_monotonic(g, 0, k);
    lemma_off_monotonic(g, k, g.num_groups() as int);
    if k == 0 {
        assert(g.flat_sel_up_to(0) =~= identity_sel(n).subrange(0, 0));
    } else {
        lemma_tiling_flat_sel(g, n, k - 1);
        lemma_off_monotonic(g, 0, k - 1);
        assert(g.flat_sel_up_to(k) =~= identity_sel(n).subrange(0, g.off(k)));
    }
}

/// Offsets entries are sums of group lengths, so they never decrease and
/// never go below zero.
pub proof fn lemma_off_monotonic(g: &GroupsType, k1: int, k2: int)
    requires
        k1 <= k2,
    ensures
        g.off(k1) <= g.off(k2),
        0 <= g.off(k2),
    decreases k2,
{
    if k2 <= 0 {
    } else if k1 < k2 {
        lemma_off_monotonic(g, k1, k2 - 1);
    } else {
        lemma_off_monotonic(g, 0, k2 - 1);
    }
}

/// The first `k` groups select exactly `off(k)` elements.
pub proof fn lemma_flat_sel_len(g: &GroupsType, k: int)
    ensures
        g.flat_sel_up_to(k).len() == if k <= 0 {
            0
        } else {
            g.off(k)
        },
    decreases k,
{
    if k > 0 {
        lemma_flat_sel_len(g, k - 1);
        lemma_off_monotonic(g, 0, k - 1);
    }
}

/// A shorter prefix of groups selects a prefix of the combined selection.
pub proof fn lemma_flat_sel_prefix(g: &GroupsType, k: int, m: int)
    requires
        0 <= k <= m,
    ensures
        g.flat_sel_up_to(k) == g.flat_sel_up_to(m).subrange(0, g.flat_sel_up_to(k).len() as int),
    decreases m,
{
    if m > k {
        lemma_flat_sel_prefix(g, k, m - 1);
        lemma_flat_sel_len(g, k);
        lemma_flat_sel_len(g, m - 1);
        lemma_off_monotonic(g, k, m - 1);
        lemma_off_monotonic(g, 0, k);
        assert(g.flat_sel_up_to(k) =~= g.flat_sel_up_to(m).subrange(
            0,
            g.flat_sel_up_to(k).len() as int,
        ));
    } else {
        assert(g.flat_sel_up_to(k) =~= g.flat_sel_up_to(m).subrange(
            0,
            g.flat_sel_up_to(k).len() as int,
        ));
    }
}

/// Group `i`'s selection sits at `off(i)..off(i+1)` within the combined
/// selection: the slice of the flattened output that belongs to group `i`
/// is exactly that group's own gather.
pub proof fn lemma_flat_sel_group_slice(g: &GroupsType, i: int)
    requires
        0 <= i < g.num_groups(),
    ensures
        g.flat_sel().subrange(g.off(i), g.off(i + 1)) == g.sel(i),
{
    lemma_flat_sel_len(g, i);
    lemma_flat_sel_len(g, i + 1);
    lemma_flat_sel_len(g, g.num_groups() as int);
    lemma_off_monotonic(g, 0, i);
    lemma_off_monotonic(g, i + 1, g.num_groups() as int);
    lemma_flat_sel_prefix(g, i + 1, g.num_groups() as int);
    assert(g.flat_sel_up_to(i + 1) == g.flat_sel_up_to(i) + g.sel(i));
    assert forall|p: int| 0 <= p < g.len_of(i) implies g.flat_sel()[g.off(i) + p] == g.sel(i)[p] by {
        assert(g.flat_sel_up_to(i + 1)[g.off(i) + p] == g.sel(i)[p]);
        assert(g.flat_sel().subrange(0, g.off(i + 1))[g.off(i) + p] == g.flat_sel()[g.off(i) + p]);
    }
    assert(g.flat_sel().subrange(g.off(i), g.off(i + 1)) =~= g.sel(i));
}

/// Round-trip of the aggregation: slicing the flattened gather at
/// `off(k)..off(k + 1)` recovers exactly group `k`'s own element sequence,
/// for any source sequence — the inverse "explode" of list row `k` yields
/// the rows the group selected, in order (and an empty group yields none).
pub proof fn lemma_gathered_group_slice<A>(s: Seq<A>, g: &GroupsType, k: int)
    requires
        0 <= k < g.num_groups(),
    ensures
        crate::values::gather(s, g.flat_sel()).subrange(g.off(k), g.off(k + 1))
            == crate::values::gather(s, g.sel(k)),
{
    let num = g.num_groups() as int;
    lemma_off_monotonic(g, 0, k);
    lemma_off_monotonic(g, k, k + 1);
    lemma_off_monotonic(g, k + 1, num);
    lemma_flat_sel_len(g, num);
    lemma_flat_sel_group_slice(g, k);
    crate::values::lemma_gather_subrange(s, g.flat_sel(), g.off(k), g.off(k + 1));
}

/// Every element of the combined selection is in bounds when the partition is.
pub proof fn lemma_flat_sel_in_bounds(g: &GroupsType, n: nat, k: int)
    requires
        g.in_bounds(n),
        k <= g.num_groups(),
    ensures
        forall|p: int|
            0 <= p < g.flat_sel_up_to(k).len() ==> 0 <= #[trigger] g.flat_sel_up_to(k)[p] < n,
    decreases k,
{
    if k > 0 {
        lemma_flat_sel_in_bounds(g, n, k - 1);
        assert forall|p: int| 0 <= p < g.flat_sel_up_to(k).len() implies 0 <= #[trigger] g
            .flat_sel_up_to(k)[p] < n by {
            if p >= g.flat_sel_up_to(k - 1).len() {
                let j = p - g.flat_sel_up_to(k - 1).len();
                assert(g.flat_sel_up_to(k)[p] == g.sel(k - 1)[j]);
                assert(0 <= g.sel(k - 1)[j] < n);
            }
        }
    }
}

} // verus!
