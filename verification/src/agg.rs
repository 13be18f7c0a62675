use vstd::prelude::*;
use crate::column::{
    BoolColumn, BytesColumn, Column, IntColumn, NullColumn, ObjectColumn, StructColumn,
};
use crate::groups::{
    GroupsType, lemma_flat_sel_in_bounds, lemma_flat_sel_len, lemma_off_monotonic,
};
use crate::list_column::ListColumn;
use crate::values::{gather, identity_sel, lemma_gather_identity, usize_sel, Kind, SpecVal};

verus! {

/// "Collect each group's rows into one list": the common contract of every
/// storage category's aggregation strategy.
///
/// The result is a list column with one row per group, whose child holds the
/// source elements of every group concatenated in group order. The element
/// kind, the per-element validity, and the raw buffer contents (bytes under
/// null positions included) are all pinned, so any two strategies fed
/// equivalent partitions produce identical output.
pub trait AggList: Sized {
    /// Well-formedness of the source column.
    spec fn src_wf(&self) -> bool;

    /// Number of rows of the source column.
    spec fn src_len(&self) -> nat;

    /// Name of the source column, kept on the output.
    spec fn src_name(&self) -> Seq<char>;

    /// Element kind of the source column, kept on the output's child.
    spec fn src_kind(&self) -> Kind;

    /// Raw (physical) elements of the source column.
    spec fn src_raw(&self) -> Seq<SpecVal>;

    /// Per-element validity of the source column.
    spec fn src_valid(&self) -> Seq<bool>;

    /// Whether the output's child carries a validity buffer: allocated only
    /// when the source has at least one null, and never for storage
    /// categories that carry no per-element validity at all.
    spec fn out_has_buf(&self) -> bool;

    /// Aggregates the column into one list row per group.
    ///
    /// Every row index referenced by the partition must be in bounds for
    /// this column: that is the caller's obligation, checked here once at
    /// the contract level rather than re-validated element by element on the
    /// hot path.
    fn agg_list(&self, groups: &GroupsType) -> (r: ListColumn)
        requires
            self.src_wf(),
            groups.in_bounds(self.src_len()),
            groups.total_len() <= usize::MAX,
        ensures
            r.wf(),
            r.name@ == self.src_name(),
            r.offsets@.len() == groups.num_groups() + 1,
            forall|k: int| 0 <= k <= groups.num_groups() ==> #[trigger] r.offsets@[k] == groups.off(
                k,
            ),
            r.values.kind() == self.src_kind(),
            r.values.len_s() == groups.total_len(),
            r.values.raw() == gather(self.src_raw(), groups.flat_sel()),
            r.values.valid() == gather(self.src_valid(), groups.flat_sel()),
            r.values.has_buf() == self.out_has_buf(),
            r.validity is None,
            r.fast_explode == groups.all_nonempty(),
    ;
}

/// Second pass of the primitive and opaque strategies: walks the same groups
/// again and collects the source validity bit of every gathered position.
fn gather_bits(valid: &Vec<bool>, groups: &GroupsType) -> (r: Vec<bool>)
    requires
        groups.in_bounds(valid@.len()),
    ensures
        r@.len() == groups.flat_sel().len(),
        forall|p: int| 0 <= p < r@.len() ==> r@[p] == valid@[groups.flat_sel()[p]],
{
    let num = match groups {
        GroupsType::Idx(gs) => gs.len(),
        GroupsType::Slice(gs) => gs.len(),
    };
    let vn = valid.len();
    let mut bits: Vec<bool> = Vec::new();
    let mut gi: usize = 0;
    while gi < num
        invariant
            groups.in_bounds(valid@.len()),
            vn == valid@.len(),
            num == groups.num_groups(),
            gi <= num,
            bits@.len() == groups.flat_sel_up_to(gi as int).len(),
            forall|p: int|
                0 <= p < bits@.len() ==> bits@[p] == valid@[groups.flat_sel_up_to(gi as int)[p]],
        decreases num - gi,
    {
        let ghost flat_prev = groups.flat_sel_up_to(gi as int);
        let glen = match groups {
            GroupsType::Idx(gs) => gs[gi].len(),
            GroupsType::Slice(gs) => gs[gi].1,
        };
        let mut j: usize = 0;
        while j < glen
            invariant
                groups.in_bounds(valid@.len()),
                vn == valid@.len(),
                num == groups.num_groups(),
                gi < num,
                glen == groups.len_of(gi as int),
                j <= glen,
                bits@.len() == flat_prev.len() + j,
                forall|p: int| 0 <= p < flat_prev.len() ==> bits@[p] == valid@[flat_prev[p]],
                forall|q: int|
                    0 <= q < j ==> #[trigger] bits@[flat_prev.len() + q] == valid@[groups.sel(
                        gi as int,
                    )[q]],
            decreases glen - j,
        {
            proof {
                assert(0 <= groups.sel(gi as int)[j as int] < valid@.len());
            }
            let i: usize = match groups {
                GroupsType::Idx(gs) => gs[gi][j],
                GroupsType::Slice(gs) => gs[gi].0 + j,
            };
            bits.push(valid[i]);
            j += 1;
        }
        proof {
            let pl = flat_prev.len() as int;
            assert(groups.flat_sel_up_to(gi + 1) == flat_prev + groups.sel(gi as int));
            assert forall|p: int| 0 <= p < bits@.len() implies bits@[p] == valid@[groups
                .flat_sel_up_to(gi + 1)[p]] by {
                if p >= pl {
                    assert(bits@[pl + (p - pl)] == valid@[groups.sel(gi as int)[p - pl]]);
                }
            }
        }
        gi += 1;
    }
    bits
}

/// Wraps a gathered child column with the partition's offsets: the assembly
/// step shared by every strategy that goes through the combined
/// gather-and-offsets specification.
fn wrap_list(
    name: String,
    offsets: Vec<usize>,
    child: Column,
    can_fast_explode: bool,
    groups: &GroupsType,
) -> (r: ListColumn)
    requires
        offsets@.len() == groups.num_groups() + 1,
        forall|k: int| 0 <= k <= groups.num_groups() ==> #[trigger] offsets@[k] == groups.off(k),
        child.wf(),
        child.len_s() == groups.total_len(),
        can_fast_explode == groups.all_nonempty(),
    ensures
        r.wf(),
        r.name@ == name@,
        r.offsets@ == offsets@,
        r.values == child,
        r.validity is None,
        r.fast_explode == groups.all_nonempty(),
{
    let r = ListColumn {
        name,
        offsets,
        values: child,
        validity: None,
        fast_explode: can_fast_explode,
    };
    proof {
        assert forall|k: int| 0 <= k < groups.num_groups() implies #[trigger] r.offsets@[k]
            <= r.offsets@[k + 1] by {
            assert(groups.off(k + 1) == groups.off(k) + groups.len_of(k));
        }
        if can_fast_explode {
            assert forall|k: int| 0 <= k < groups.num_groups() implies #[trigger] r.offsets@[k]
                < r.offsets@[k + 1] by {
                assert(groups.off(k + 1) == groups.off(k) + groups.len_of(k));
                assert(groups.len_of(k) > 0);
            }
        }
    }
    r
}

impl AggList for IntColumn {
    open spec fn src_wf(&self) -> bool {
        self.wf()
    }

    open spec fn src_len(&self) -> nat {
        self.len_s()
    }

    open spec fn src_name(&self) -> Seq<char> {
        self.name@
    }

    open spec fn src_kind(&self) -> Kind {
        Kind::Int
    }

    open spec fn src_raw(&self) -> Seq<SpecVal> {
        self.raw()
    }

    open spec fn src_valid(&self) -> Seq<bool> {
        self.valid()
    }

    open spec fn out_has_buf(&self) -> bool {
        self.has_nulls()
    }

    /// Fixed-width fast path. A single pass gathers each group's values into
    /// one shared output buffer — by direct indexed lookups for index-list
    /// partitions, by contiguous range copies for slice partitions — pushing
    /// the running cumulative length onto the offsets after each group. A
    /// second pass mirrors the source validity at every gathered position,
    /// and runs only when the source has at least one null.
    fn agg_list(&self, groups: &GroupsType) -> (r: ListColumn) {
        let num = match groups {
            GroupsType::Idx(gs) => gs.len(),
            GroupsType::Slice(gs) => gs.len(),
        };
        let srcn = self.values.len();
        let mut can_fast_explode = true;
        let mut offsets: Vec<usize> = Vec::new();
        offsets.push(0);
        let mut list_values: Vec<i64> = Vec::new();
        let mut gi: usize = 0;
        while gi < num
            invariant
                self.wf(),
                groups.in_bounds(self.len_s()),
                srcn == self.len_s(),
                num == groups.num_groups(),
                gi <= num,
                offsets@.len() == gi + 1,
                forall|k: int| 0 <= k <= gi ==> #[trigger] offsets@[k] == groups.off(k),
                list_values@.len() == groups.flat_sel_up_to(gi as int).len(),
                forall|p: int|
                    0 <= p < list_values@.len() ==> list_values@[p] == self.values@[groups
                        .flat_sel_up_to(gi as int)[p]],
                can_fast_explode == (forall|k: int| 0 <= k < gi ==> groups.len_of(k) > 0),
            decreases num - gi,
        {
            let ghost flat_prev = groups.flat_sel_up_to(gi as int);
            let glen = match groups {
                GroupsType::Idx(gs) => gs[gi].len(),
                GroupsType::Slice(gs) => gs[gi].1,
            };
            if glen == 0 {
                can_fast_explode = false;
            }
            let mut j: usize = 0;
            while j < glen
                invariant
                    self.wf(),
                    groups.in_bounds(self.len_s()),
                    srcn == self.len_s(),
                    num == groups.num_groups(),
                    gi < num,
                    glen == groups.len_of(gi as int),
                    j <= glen,
                    list_values@.len() == flat_prev.len() + j,
                    forall|p: int|
                        0 <= p < flat_prev.len() ==> list_values@[p] == self.values@[flat_prev[p]],
                    forall|q: int|
                        0 <= q < j ==> #[trigger] list_values@[flat_prev.len() + q]
                            == self.values@[groups.sel(gi as int)[q]],
                decreases glen - j,
            {
                proof {
                    assert(0 <= groups.sel(gi as int)[j as int] < self.len_s());
                }
                let i: usize = match groups {
                    GroupsType::Idx(gs) => gs[gi][j],
                    GroupsType::Slice(gs) => gs[gi].0 + j,
                };
                list_values.push(self.values[i]);
                j += 1;
            }
            proof {
                let pl = flat_prev.len() as int;
                assert(groups.flat_sel_up_to(gi + 1) == flat_prev + groups.sel(gi as int));
                assert forall|p: int| 0 <= p < list_values@.len() implies list_values@[p]
                    == self.values@[groups.flat_sel_up_to(gi + 1)[p]] by {
                    if p >= pl {
                        assert(list_values@[pl + (p - pl)] == self.values@[groups.sel(
                            gi as int,
                        )[p - pl]]);
                    }
                }
                lemma_flat_sel_len(groups, gi + 1);
                lemma_flat_sel_len(groups, gi as int);
                assert(list_values@.len() == groups.off(gi + 1));
            }
            offsets.push(list_values.len());
            gi += 1;
        }
        let validity = match &self.validity {
            Some(vb) => if crate::column::any_false(vb) {
                Some(gather_bits(vb, groups))
            } else {
                None
            },
            None => None,
        };
        let ghost flat = groups.flat_sel();
        proof {
            lemma_flat_sel_len(groups, num as int);
            lemma_flat_sel_in_bounds(groups, self.len_s(), num as int);
        }
        let child = IntColumn { name: String::new(), values: list_values, validity };
        let r = ListColumn {
            name: self.name.clone(),
            offsets,
            values: Column::Int(child),
            validity: None,
            fast_explode: can_fast_explode,
        };
        proof {
            assert forall|k: int| 0 <= k < groups.num_groups() implies #[trigger] r.offsets@[k]
                <= r.offsets@[k + 1] by {
                assert(groups.off(k + 1) == groups.off(k) + groups.len_of(k));
            }
            assert(r.values.raw() =~= gather(self.raw(), flat));
            assert(r.values.valid() =~= gather(self.valid(), flat));
        }
        r
    }
}

impl AggList for BoolColumn {
    open spec fn src_wf(&self) -> bool {
        self.wf()
    }

    open spec fn src_len(&self) -> nat {
        self.len_s()
    }

    open spec fn src_name(&self) -> Seq<char> {
        self.name@
    }

    open spec fn src_kind(&self) -> Kind {
        Kind::Bool
    }

    open spec fn src_raw(&self) -> Seq<SpecVal> {
        self.raw()
    }

    open spec fn src_valid(&self) -> Seq<bool> {
        self.valid()
    }

    open spec fn out_has_buf(&self) -> bool {
        self.has_nulls()
    }

    /// Gather-and-wrap: one bulk take along the combined selection — or no
    /// take at all when the slice-form partition tiles the source — wrapped
    /// with the derived offsets.
    fn agg_list(&self, groups: &GroupsType) -> (r: ListColumn) {
        let (gather_idx, offsets, can_fast_explode) = groups.prepare_list_agg(self.values.len());
        let gathered = match &gather_idx {
            Some(g) => {
                proof {
                    lemma_flat_sel_in_bounds(groups, self.len_s(), groups.num_groups() as int);
                    assert forall|j: int| 0 <= j < g@.len() implies g@[j] < self.len_s() by {
                        assert(usize_sel(g@)[j] == groups.flat_sel()[j]);
                    }
                }
                self.take(g)
            },
            None => self.take_all(),
        };
        proof {
            lemma_flat_sel_len(groups, groups.num_groups() as int);
            match gather_idx {
                Some(g) => {},
                None => {
                    lemma_gather_identity(self.raw());
                    lemma_gather_identity(self.valid());
                },
            }
        }
        wrap_list(self.name.clone(), offsets, Column::Bool(gathered), can_fast_explode, groups)
    }
}

impl AggList for BytesColumn {
    open spec fn src_wf(&self) -> bool {
        self.wf()
    }

    open spec fn src_len(&self) -> nat {
        self.len_s()
    }

    open spec fn src_name(&self) -> Seq<char> {
        self.name@
    }

    open spec fn src_kind(&self) -> Kind {
        Kind::Bytes
    }

    open spec fn src_raw(&self) -> Seq<SpecVal> {
        self.raw()
    }

    open spec fn src_valid(&self) -> Seq<bool> {
        self.valid()
    }

    open spec fn out_has_buf(&self) -> bool {
        self.has_nulls()
    }

    /// Gather-and-wrap, as on the boolean column: variable-width values go
    /// through the same shared strategy.
    fn agg_list(&self, groups: &GroupsType) -> (r: ListColumn) {
        let (gather_idx, offsets, can_fast_explode) = groups.prepare_list_agg(self.values.len());
        let gathered = match &gather_idx {
            Some(g) => {
                proof {
                    lemma_flat_sel_in_bounds(groups, self.len_s(), groups.num_groups() as int);
                    assert forall|j: int| 0 <= j < g@.len() implies g@[j] < self.len_s() by {
                        assert(usize_sel(g@)[j] == groups.flat_sel()[j]);
                    }
                }
                self.take(g)
            },
            None => self.take_all(),
        };
        proof {
            lemma_flat_sel_len(groups, groups.num_groups() as int);
            match gather_idx {
                Some(g) => {},
                None => {
                    lemma_gather_identity(self.raw());
                    lemma_gather_identity(self.valid());
                },
            }
        }
        wrap_list(self.name.clone(), offsets, Column::Bytes(gathered), can_fast_explode, groups)
    }
}

impl AggList for NullColumn {
    open spec fn src_wf(&self) -> bool {
        true
    }

    open spec fn src_len(&self) -> nat {
        self.len_s()
    }

    open spec fn src_name(&self) -> Seq<char> {
        self.name@
    }

    open spec fn src_kind(&self) -> Kind {
        Kind::Null
    }

    open spec fn src_raw(&self) -> Seq<SpecVal> {
        self.raw()
    }

    open spec fn src_valid(&self) -> Seq<bool> {
        self.valid()
    }

    open spec fn out_has_buf(&self) -> bool {
        false
    }

    /// All-null fast path: no gathering at all. Only the per-group length
    /// contribution to the offsets is synthesized; the child is a typed-null
    /// column of the total length, with no value buffer or validity pass.
    fn agg_list(&self, groups: &GroupsType) -> (r: ListColumn) {
        let (offsets, can_fast_explode) = groups.group_offsets();
        let num = match groups {
            GroupsType::Idx(gs) => gs.len(),
            GroupsType::Slice(gs) => gs.len(),
        };
        let total = offsets[num];
        let child = NullColumn { name: String::new(), len: total };
        proof {
            lemma_flat_sel_len(groups, num as int);
            lemma_flat_sel_in_bounds(groups, self.len_s(), num as int);
            assert(child.raw() =~= gather(self.raw(), groups.flat_sel()));
            assert(child.valid() =~= gather(self.valid(), groups.flat_sel()));
        }
        wrap_list(self.name.clone(), offsets, Column::Null(child), can_fast_explode, groups)
    }
}

impl AggList for ObjectColumn {
    open spec fn src_wf(&self) -> bool {
        self.wf()
    }

    open spec fn src_len(&self) -> nat {
        self.len_s()
    }

    open spec fn src_name(&self) -> Seq<char> {
        self.name@
    }

    open spec fn src_kind(&self) -> Kind {
        Kind::Object
    }

    open spec fn src_raw(&self) -> Seq<SpecVal> {
        self.raw()
    }

    open spec fn src_valid(&self) -> Seq<bool> {
        self.valid()
    }

    open spec fn out_has_buf(&self) -> bool {
        self.has_nulls()
    }

    /// Opaque path: every group's selected sub-column is obtained — by
    /// indexed gather for index-list groups, by direct slicing for
    /// slice-form groups — and its elements are concatenated in group order,
    /// preserving each handle's identity without coercing it into any other
    /// representation.
    fn agg_list(&self, groups: &GroupsType) -> (r: ListColumn) {
        let (offsets, can_fast_explode) = groups.group_offsets();
        let num = match groups {
            GroupsType::Idx(gs) => gs.len(),
            GroupsType::Slice(gs) => gs.len(),
        };
        let mut out_vals: Vec<u64> = Vec::new();
        let mut bits: Vec<bool> = Vec::new();
        let mut gi: usize = 0;
        while gi < num
            invariant
                self.wf(),
                groups.in_bounds(self.len_s()),
                num == groups.num_groups(),
                gi <= num,
                out_vals@.len() == groups.flat_sel_up_to(gi as int).len(),
                bits@.len() == out_vals@.len(),
                forall|p: int|
                    0 <= p < out_vals@.len() ==> out_vals@[p] == self.values@[groups.flat_sel_up_to(
                        gi as int,
                    )[p]],
                forall|p: int|
                    0 <= p < bits@.len() ==> bits@[p] == self.valid()[groups.flat_sel_up_to(
                        gi as int,
                    )[p]],
            decreases num - gi,
        {
            let ghost flat_prev = groups.flat_sel_up_to(gi as int);
            let glen = match groups {
                GroupsType::Idx(gs) => gs[gi].len(),
                GroupsType::Slice(gs) => gs[gi].1,
            };
            let sub: ObjectColumn = if glen == 0 {
                ObjectColumn { name: String::new(), values: Vec::new(), validity: None }
            } else {
                match groups {
                    GroupsType::Idx(gs) => {
                        proof {
                            let grp = gs@[gi as int]@;
                            assert forall|j: int| 0 <= j < grp.len() implies grp[j]
                                < self.len_s() by {
                                assert(groups.sel(gi as int)[j] == grp[j] as int);
                            }
                        }
                        self.take(&gs[gi])
                    },
                    GroupsType::Slice(gs) => {
                        proof {
                            assert(groups.sel(gi as int)[glen - 1] < self.len_s());
                        }
                        self.sliced(gs[gi].0, gs[gi].1, String::new())
                    },
                }
            };
            proof {
                assert forall|q: int| 0 <= q < glen implies sub.raw()[q] == self.raw()[groups.sel(
                    gi as int,
                )[q]] && sub.valid()[q] == self.valid()[groups.sel(gi as int)[q]] by {
                    match groups {
                        GroupsType::Idx(gs) => {
                            assert(usize_sel(gs@[gi as int]@)[q] == groups.sel(gi as int)[q]);
                        },
                        GroupsType::Slice(gs) => {
                            assert(groups.sel(gi as int)[q] == gs@[gi as int].0 + q);
                        },
                    }
                }
                assert(sub.len_s() == glen);
            }
            let sublen = sub.values.len();
            let mut j: usize = 0;
            while j < sublen
                invariant
                    self.wf(),
                    sub.wf(),
                    groups.in_bounds(self.len_s()),
                    num == groups.num_groups(),
                    gi < num,
                    sublen == sub.len_s(),
                    sublen == groups.len_of(gi as int),
                    forall|q: int|
                        0 <= q < sublen ==> #[trigger] sub.raw()[q] == self.raw()[groups.sel(
                            gi as int,
                        )[q]] && sub.valid()[q] == self.valid()[groups.sel(gi as int)[q]],
                    j <= sublen,
                    out_vals@.len() == flat_prev.len() + j,
                    bits@.len() == out_vals@.len(),
                    forall|p: int|
                        0 <= p < flat_prev.len() ==> out_vals@[p] == self.values@[flat_prev[p]]
                            && bits@[p] == self.valid()[flat_prev[p]],
                    forall|q: int|
                        0 <= q < j ==> #[trigger] out_vals@[flat_prev.len() + q]
                            == self.values@[groups.sel(gi as int)[q]] && bits@[flat_prev.len() + q]
                            == self.valid()[groups.sel(gi as int)[q]],
                decreases sublen - j,
            {
                proof {
                    let s = groups.sel(gi as int)[j as int];
                    assert(0 <= s < self.len_s());
                    assert(sub.raw()[j as int] == self.raw()[s]);
                    assert(sub.raw()[j as int] == SpecVal::Obj(sub.values@[j as int] as int));
                    assert(self.raw()[s] == SpecVal::Obj(self.values@[s] as int));
                    assert(sub.values@[j as int] == self.values@[s]);
                    assert(sub.valid()[j as int] == self.valid()[s]);
                }
                out_vals.push(sub.values[j]);
                bits.push(sub.valid_at(j));
                proof {
                    let s = groups.sel(gi as int)[j as int];
                    assert(out_vals@[flat_prev.len() + j as int] == self.values@[s]);
                    assert(bits@[flat_prev.len() + j as int] == self.valid()[s]);
                    assert forall|q: int| 0 <= q < j + 1 implies #[trigger] out_vals@[flat_prev.len()
                        + q] == self.values@[groups.sel(gi as int)[q]] && bits@[flat_prev.len() + q]
                        == self.valid()[groups.sel(gi as int)[q]] by {
                        if q < j {
                            assert(out_vals@[flat_prev.len() + q] == self.values@[groups.sel(
                                gi as int,
                            )[q]]);
                            assert(bits@[flat_prev.len() + q] == self.valid()[groups.sel(
                                gi as int,
                            )[q]]);
                        }
                    }
                }
                j += 1;
            }
            proof {
                let pl = flat_prev.len() as int;
                assert(groups.flat_sel_up_to(gi + 1) == flat_prev + groups.sel(gi as int));
                assert forall|p: int| 0 <= p < out_vals@.len() implies out_vals@[p]
                    == self.values@[groups.flat_sel_up_to(gi + 1)[p]] && bits@[p]
                    == self.valid()[groups.flat_sel_up_to(gi + 1)[p]] by {
                    if p >= pl {
                        assert(out_vals@[pl + (p - pl)] == self.values@[groups.sel(gi as int)[p
                            - pl]]);
                        assert(bits@[pl + (p - pl)] == self.valid()[groups.sel(gi as int)[p - pl]]);
                    }
                }
            }
            gi += 1;
        }
        let validity = if self.has_nulls_exec() {
            Some(bits)
        } else {
            None
        };
        let ghost flat = groups.flat_sel();
        proof {
            lemma_flat_sel_len(groups, num as int);
            lemma_flat_sel_in_bounds(groups, self.len_s(), num as int);
        }
        let child = ObjectColumn { name: String::new(), values: out_vals, validity };
        proof {
            assert(child.raw() =~= gather(self.raw(), flat));
            assert(child.valid() =~= gather(self.valid(), flat));
        }
        wrap_list(self.name.clone(), offsets, Column::Object(child), can_fast_explode, groups)
    }
}

impl AggList for StructColumn {
    open spec fn src_wf(&self) -> bool {
        self.wf()
    }

    open spec fn src_len(&self) -> nat {
        self.len_s()
    }

    open spec fn src_name(&self) -> Seq<char> {
        self.name@
    }

    open spec fn src_kind(&self) -> Kind {
        Kind::Struct(self.names_view(), self.kinds_view())
    }

    open spec fn src_raw(&self) -> Seq<SpecVal> {
        self.raw()
    }

    open spec fn src_valid(&self) -> Seq<bool> {
        self.valid()
    }

    open spec fn out_has_buf(&self) -> bool {
        false
    }

    /// Structured path: the same derived-offsets computation as the
    /// gather-and-wrap strategy, with the single bulk take applied uniformly
    /// across all fields at once so corresponding positions stay aligned,
    /// and the result re-tagged as a list of the source struct type.
    fn agg_list(&self, groups: &GroupsType) -> (r: ListColumn) {
        let (gather_idx, offsets, can_fast_explode) = groups.prepare_list_agg(self.length);
        let gathered = match &gather_idx {
            Some(g) => {
                proof {
                    lemma_flat_sel_in_bounds(groups, self.len_s(), groups.num_groups() as int);
                    assert forall|j: int| 0 <= j < g@.len() implies g@[j] < self.len_s() by {
                        assert(usize_sel(g@)[j] == groups.flat_sel()[j]);
                    }
                }
                self.take(g)
            },
            None => self.sliced(0, self.length, self.name.clone()),
        };
        let ghost flat = groups.flat_sel();
        proof {
            lemma_flat_sel_len(groups, groups.num_groups() as int);
            lemma_flat_sel_in_bounds(groups, self.len_s(), groups.num_groups() as int);
            match gather_idx {
                Some(g) => {},
                None => {
                    lemma_gather_identity(self.raw());
                    assert(gathered.raw() =~= self.raw());
                },
            }
            assert(Column::Struct(gathered).valid() =~= gather(self.valid(), flat));
        }
        wrap_list(self.name.clone(), offsets, Column::Struct(gathered), can_fast_explode, groups)
    }
}

impl AggList for Column {
    open spec fn src_wf(&self) -> bool {
        self.wf()
    }

    open spec fn src_len(&self) -> nat {
        self.len_s()
    }

    open spec fn src_name(&self) -> Seq<char> {
        self.name_s()
    }

    open spec fn src_kind(&self) -> Kind {
        self.kind()
    }

    open spec fn src_raw(&self) -> Seq<SpecVal> {
        self.raw()
    }

    open spec fn src_valid(&self) -> Seq<bool> {
        self.valid()
    }

    open spec fn out_has_buf(&self) -> bool {
        match self {
            Column::Null(_) => false,
            Column::Struct(_) => false,
            _ => self.has_nulls(),
        }
    }

    /// Dispatch by storage category, selecting one of the five strategies.
    fn agg_list(&self, groups: &GroupsType) -> (r: ListColumn) {
        match self {
            Column::Int(c) => c.agg_list(groups),
            Column::Bool(c) => c.agg_list(groups),
            Column::Bytes(c) => c.agg_list(groups),
            Column::Null(c) => c.agg_list(groups),
            Column::Object(c) => c.agg_list(groups),
            Column::Struct(c) => c.agg_list(groups),
        }
    }
}

} // verus!
