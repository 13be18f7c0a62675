use vstd::prelude::*;
use crate::groups::{GroupsType, lemma_gathered_group_slice, lemma_flat_sel_len, lemma_off_monotonic};
use crate::list_column::ListColumn;
use crate::values::{gather, SpecVal};

verus! {

/// Row `k` of the list column holds exactly group `k`'s gathered elements
/// and validity, and is a present (non-null) list.
pub open spec fn row_ok(lc: ListColumn, g: GroupsType, raw: Seq<SpecVal>, valid: Seq<bool>, k: int) -> bool {
    &&& lc.list_valid(k)
    &&& lc.list_raw(k) == gather(raw, g.sel(k))
    &&& lc.values.valid().subrange(lc.offsets@[k] as int, lc.offsets@[k + 1] as int) == gather(
        valid,
        g.sel(k),
    )
}

/// Every row of the list column holds its group's own gathered elements.
pub open spec fn rows_match(lc: ListColumn, g: GroupsType, raw: Seq<SpecVal>, valid: Seq<
    bool,
>) -> bool {
    forall|k: int| 0 <= k < g.num_groups() ==> #[trigger] row_ok(lc, g, raw, valid, k)
}

/// A list column whose offsets and child are exactly what the aggregation
/// contract pins down yields, row by row, each group's own element sequence:
/// row `k` holds `gather(raw, sel(k))` with validity `gather(valid, sel(k))`,
/// and no row is a null list.
pub proof fn lemma_aggregated_rows(lc: ListColumn, g: &GroupsType, raw: Seq<SpecVal>, valid: Seq<
    bool,
>)
    requires
        lc.offsets@.len() == g.num_groups() + 1,
        forall|k: int| 0 <= k <= g.num_groups() ==> #[trigger] lc.offsets@[k] == g.off(k),
        lc.values.raw() == gather(raw, g.flat_sel()),
        lc.values.valid() == gather(valid, g.flat_sel()),
        lc.validity is None,
    ensures
        rows_match(lc, *g, raw, valid),
{
    let num = g.num_groups() as int;
    lemma_flat_sel_len(g, num);
    assert forall|k: int| 0 <= k < g.num_groups() implies #[trigger] row_ok(
        lc,
        *g,
        raw,
        valid,
        k,
    ) by {
        lemma_gathered_group_slice(raw, g, k);
        lemma_gathered_group_slice(valid, g, k);
        assert(lc.offsets@[k] == g.off(k));
        assert(lc.offsets@[k + 1] == g.off(k + 1));
    }
}

/// Shape of the offsets any aggregation produces: one more entry than there
/// are groups; the first entry zero; nondecreasing throughout; and the last
/// entry equal to the total number of gathered elements, which is the
/// flattened child's length.
pub proof fn lemma_offsets_shape(offs: Seq<usize>, g: &GroupsType)
    requires
        offs.len() == g.num_groups() + 1,
        forall|k: int| 0 <= k <= g.num_groups() ==> #[trigger] offs[k] == g.off(k),
    ensures
        offs[0] == 0,
        forall|i: int, j: int| 0 <= i <= j <= g.num_groups() ==> offs[i] <= offs[j],
        forall|i: int| 0 <= i < g.num_groups() ==> offs[i + 1] - offs[i] == #[trigger] g.len_of(i),
        offs[offs.len() - 1] == g.total_len(),
        g.total_len() == g.flat_sel().len(),
{
    lemma_flat_sel_len(g, g.num_groups() as int);
    assert forall|i: int, j: int| 0 <= i <= j <= g.num_groups() implies offs[i] <= offs[j] by {
        lemma_off_monotonic(g, i, j);
    }
}

/// A partition with one empty group can never carry the fast-explode flag:
/// the aggregation contract ties the flag to every group being non-empty.
pub proof fn lemma_empty_group_disables_fast_explode(g: &GroupsType, i: int)
    requires
        0 <= i < g.num_groups(),
        g.len_of(i) == 0,
    ensures
        !g.all_nonempty(),
{
}

/// Two partitions selecting the same rows for every group — an index-list
/// form and a slice form over equivalent row selections, say — agree on
/// everything the aggregation contract pins down: group count, per-group
/// lengths, offsets, the combined selection, and the fast-explode flag. The
/// contract determines the whole output from these and the source column, so
/// the two forms produce identical list columns.
pub proof fn lemma_equivalent_partitions(g1: &GroupsType, g2: &GroupsType)
    requires
        g1.num_groups() == g2.num_groups(),
        forall|i: int| 0 <= i < g1.num_groups() ==> #[trigger] g1.sel(i) == g2.sel(i),
    ensures
        forall|i: int| 0 <= i < g1.num_groups() ==> #[trigger] g1.len_of(i) == g2.len_of(i),
        forall|k: int| 0 <= k <= g1.num_groups() ==> #[trigger] g1.off(k) == g2.off(k),
        g1.flat_sel() == g2.flat_sel(),
        g1.total_len() == g2.total_len(),
        g1.all_nonempty() == g2.all_nonempty(),
{
    assert forall|i: int| 0 <= i < g1.num_groups() implies #[trigger] g1.len_of(i) == g2.len_of(
        i,
    ) by {
        assert(g1.sel(i).len() == g1.len_of(i));
        assert(g2.sel(i).len() == g2.len_of(i));
    }
    assert forall|k: int| 0 <= k <= g1.num_groups() implies #[trigger] g1.off(k) == g2.off(k) by {
        lemma_off_equal_up_to(g1, g2, k);
    }
    lemma_flat_sel_equal_up_to(g1, g2, g1.num_groups() as int);
    if g1.all_nonempty() {
        assert forall|i: int| 0 <= i < g2.num_groups() implies g2.len_of(i) > 0 by {
            assert(g1.len_of(i) > 0);
        }
    }
    if g2.all_nonempty() {
        assert forall|i: int| 0 <= i < g1.num_groups() implies g1.len_of(i) > 0 by {
            assert(g2.len_of(i) > 0);
            assert(g1.len_of(i) == g2.len_of(i));
        }
    }
}

proof fn lemma_off_equal_up_to(g1: &GroupsType, g2: &GroupsType, k: int)
    requires
        g1.num_groups() == g2.num_groups(),
        forall|i: int| 0 <= i < g1.num_groups() ==> #[trigger] g1.sel(i) == g2.sel(i),
        k <= g1.num_groups(),
    ensures
        g1.off(k) == g2.off(k),
    decreases k,
{
    if k > 0 {
        lemma_off_equal_up_to(g1, g2, k - 1);
        assert(g1.sel(k - 1) == g2.sel(k - 1));
        assert(g1.sel(k - 1).len() == g1.len_of(k - 1));
        assert(g2.sel(k - 1).len() == g2.len_of(k - 1));
    }
}

proof fn lemma_flat_sel_equal_up_to(g1: &GroupsType, g2: &GroupsType, k: int)
    requires
        g1.num_groups() == g2.num_groups(),
        forall|i: int| 0 <= i < g1.num_groups() ==> #[trigger] g1.sel(i) == g2.sel(i),
        k <= g1.num_groups(),
    ensures
        g1.flat_sel_up_to(k) == g2.flat_sel_up_to(k),
    decreases k,
{
    if k > 0 {
        lemma_flat_sel_equal_up_to(g1, g2, k - 1);
    }
}

/// Struct aggregation keeps fields aligned: in a gathered sequence of
/// struct rows, the field `f` sub-value at output position `p` is the field
/// `f` sub-value of the single source row that position `p` selected — no
/// field is ever paired with another row's value.
pub proof fn lemma_struct_fields_aligned(rows: Seq<SpecVal>, idxs: Seq<int>, p: int)
    requires
        0 <= p < idxs.len(),
        0 <= idxs[p] < rows.len(),
    ensures
        gather(rows, idxs)[p] == rows[idxs[p]],
        rows[idxs[p]] matches SpecVal::Tuple(fields) ==> gather(rows, idxs)[p] == SpecVal::Tuple(
            fields,
        ),
{
}

} // verus!
