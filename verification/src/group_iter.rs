use vstd::prelude::*;
use crate::agg::AggList;
use crate::column::Column;
use crate::groups::{GroupsType, lemma_flat_sel_len};
use crate::list_column::ListColumn;
use crate::values::{gather, Kind, SpecVal};

verus! {

/// The (raw value, validity) pairs a column holds, in order.
pub open spec fn col_elems(c: Column) -> Seq<(SpecVal, bool)> {
    Seq::new(c.len_s(), |i: int| (c.raw()[i], c.valid()[i]))
}

/// Elements of a stack of chunks, read from the top of the stack down.
pub open spec fn stack_elems(chunks: Seq<Column>) -> Seq<(SpecVal, bool)>
    decreases chunks.len(),
{
    if chunks.len() == 0 {
        Seq::empty()
    } else {
        col_elems(chunks.last()) + stack_elems(chunks.subrange(0, chunks.len() - 1))
    }
}

/// Elements of a list of chunks, read front to back.
pub open spec fn chunks_elems(chunks: Seq<Column>) -> Seq<(SpecVal, bool)>
    decreases chunks.len(),
{
    if chunks.len() == 0 {
        Seq::empty()
    } else {
        col_elems(chunks.first()) + chunks_elems(chunks.subrange(1, chunks.len() as int))
    }
}

/// Iterator for the literal state: one backing single-element container is
/// made up front, and every advance hands out a view of that same value,
/// once per group.
pub struct LitIter {
    pub len: usize,
    pub offset: usize,
    /// The single-element backing container, shared by every step.
    pub item: Column,
}

impl LitIter {
    pub open spec fn wf(&self) -> bool {
        &&& self.item.wf()
        &&& self.item.len_s() == 1
        &&& self.offset <= self.len
    }

    pub fn new(item: Column, len: usize) -> (r: LitIter)
        requires
            item.wf(),
            item.len_s() == 1,
        ensures
            r.wf(),
            r.offset == 0,
            r.len == len,
            r.item == item,
    {
        LitIter { len, offset: 0, item }
    }

    pub fn next(&mut self) -> (r: Option<Option<Column>>)
        requires
            old(self).wf(),
        ensures
            final(self).wf(),
            final(self).len == old(self).len,
            final(self).item == old(self).item,
            old(self).offset >= old(self).len ==> r is None && final(self).offset == old(
                self,
            ).offset,
            old(self).offset < old(self).len ==> {
                &&& final(self).offset == old(self).offset + 1
                &&& match r {
                    Some(Some(c)) => {
                        &&& c.wf()
                        &&& c.name_s() == old(self).item.name_s()
                        &&& c.kind() == old(self).item.kind()
                        &&& c.raw() == old(self).item.raw()
                        &&& c.valid() == old(self).item.valid()
                    },
                    _ => false,
                }
            },
    {
        if self.len == self.offset {
            None
        } else {
            self.offset += 1;
            let c = self.item.sliced(0, 1, self.item.get_name());
            proof {
                assert(c.raw() =~= self.item.raw());
                assert(c.valid() =~= self.item.valid());
            }
            Some(Some(c))
        }
    }
}

/// Iterator for the aggregated-scalar state: the column holds one value per
/// group, possibly across several chunks. One reusable one-element cursor
/// slides across the chunk boundaries in order; each advance re-points it at
/// the next element.
pub struct FlatIter {
    pub current_array: Column,
    /// Chunks not yet reached, as a stack: the next chunk is the last entry.
    pub chunks: Vec<Column>,
    /// Elements handed out so far.
    pub offset: usize,
    /// Position of the cursor within the current chunk.
    pub chunk_offset: usize,
    pub len: usize,
    pub name: String,
}

impl FlatIter {
    /// Elements not yet handed out: the rest of the current chunk, then the
    /// stacked chunks from the top down.
    pub open spec fn rem_elems(&self) -> Seq<(SpecVal, bool)> {
        col_elems(self.current_array).subrange(
            self.chunk_offset as int,
            self.current_array.len_s() as int,
        ) + stack_elems(self.chunks@)
    }

    pub open spec fn wf(&self) -> bool {
        &&& self.current_array.wf()
        &&& self.chunk_offset <= self.current_array.len_s()
        &&& forall|i: int|
            0 <= i < self.chunks@.len() ==> (#[trigger] self.chunks@[i]).wf()
                && self.chunks@[i].kind() == self.current_array.kind()
        &&& self.offset <= self.len
        &&& self.rem_elems().len() == self.len - self.offset
    }

    pub open spec fn kind_model(&self) -> Kind {
        self.current_array.kind()
    }

    /// Builds the cursor over the chunks of one column, reversed into a
    /// stack so that advancing pops them in their original order.
    pub fn new(chunks: Vec<Column>, len: usize, name: String) -> (r: FlatIter)
        requires
            chunks@.len() >= 1,
            forall|i: int|
                0 <= i < chunks@.len() ==> (#[trigger] chunks@[i]).wf() && chunks@[i].kind()
                    == chunks@[0].kind(),
            chunks_elems(chunks@).len() == len,
        ensures
            r.wf(),
            r.offset == 0,
            r.len == len,
            r.name@ == name@,
            r.kind_model() == chunks@[0].kind(),
            r.rem_elems() == chunks_elems(chunks@),
    {
        let ghost orig = chunks@;
        let mut rest = chunks;
        let mut stack: Vec<Column> = Vec::new();
        while rest.len() > 0
            invariant
                rest@ == orig.subrange(0, rest@.len() as int),
                rest@.len() <= orig.len(),
                stack@.len() == orig.len() - rest@.len(),
                stack_elems(stack@) == chunks_elems(
                    orig.subrange(rest@.len() as int, orig.len() as int),
                ),
                forall|i: int|
                    0 <= i < orig.len() ==> (#[trigger] orig[i]).wf() && orig[i].kind()
                        == orig[0].kind(),
                forall|i: int|
                    0 <= i < stack@.len() ==> (#[trigger] stack@[i]).wf() && stack@[i].kind()
                        == orig[0].kind(),
            decreases rest@.len(),
        {
            let ghost k = rest@.len() as int;
            let ghost prev_stack = stack@;
            let c = match rest.pop() {
                Some(c) => c,
                None => vstd::pervasive::unreached(),
            };
            proof {
                assert(c == orig[k - 1]);
                assert(rest@ =~= orig.subrange(0, k - 1));
            }
            stack.push(c);
            proof {
                let tail = orig.subrange(k - 1, orig.len() as int);
                assert(stack@.last() == orig[k - 1]);
                assert(stack@.subrange(0, stack@.len() - 1) =~= prev_stack);
                assert(tail.first() == orig[k - 1]);
                assert(tail.subrange(1, tail.len() as int) =~= orig.subrange(
                    k,
                    orig.len() as int,
                ));
                assert(col_elems(tail.first()) == col_elems(orig[k - 1]));
                assert(stack_elems(stack@) == col_elems(orig[k - 1]) + stack_elems(
                    stack@.subrange(0, stack@.len() - 1),
                ));
                assert(chunks_elems(tail) == col_elems(tail.first()) + chunks_elems(
                    tail.subrange(1, tail.len() as int),
                ));
            }
        }
        proof {
            assert(orig.subrange(0, orig.len() as int) =~= orig);
        }
        let ghost prepop = stack@;
        let current = match stack.pop() {
            Some(c) => c,
            None => vstd::pervasive::unreached(),
        };
        proof {
            assert(prepop =~= stack@.push(current));
        }
        let r = FlatIter { current_array: current, chunks: stack, offset: 0, chunk_offset: 0, len, name };
        proof {
            assert(current == prepop.last());
            assert(current.kind() == orig[0].kind());
            assert(col_elems(current).subrange(0, current.len_s() as int) =~= col_elems(current));
            assert(stack_elems(stack@.push(current)) == col_elems(current) + stack_elems(
                stack@.push(current).subrange(0, stack@.len() as int),
            ));
            assert(stack@.push(current).subrange(0, stack@.len() as int) =~= stack@);
            assert(r.rem_elems() =~= chunks_elems(orig));
        }
        r
    }

    pub fn next(&mut self) -> (r: Option<Option<Column>>)
        requires
            old(self).wf(),
        ensures
            final(self).wf(),
            final(self).len == old(self).len,
            final(self).name == old(self).name,
            final(self).kind_model() == old(self).kind_model(),
            old(self).offset >= old(self).len ==> r is None && final(self).offset == old(
                self,
            ).offset && final(self).rem_elems() == old(self).rem_elems(),
            old(self).offset < old(self).len ==> {
                &&& final(self).offset == old(self).offset + 1
                &&& final(self).rem_elems() == old(self).rem_elems().subrange(
                    1,
                    old(self).rem_elems().len() as int,
                )
                &&& match r {
                    Some(Some(c)) => {
                        &&& c.wf()
                        &&& c.name_s() == old(self).name@
                        &&& c.kind() == old(self).kind_model()
                        &&& c.len_s() == 1
                        &&& c.raw() == seq![old(self).rem_elems()[0].0]
                        &&& c.valid() == seq![old(self).rem_elems()[0].1]
                    },
                    _ => false,
                }
            },
    {
        if self.len == self.offset {
            return None;
        }
        while self.chunk_offset >= self.current_array.length()
            invariant
                self.wf(),
                self.offset == old(self).offset,
                self.len == old(self).len,
                self.name == old(self).name,
                self.offset < self.len,
                self.kind_model() == old(self).kind_model(),
                self.rem_elems() == old(self).rem_elems(),
            decreases self.chunks@.len(),
        {
            proof {
                assert(col_elems(self.current_array).subrange(
                    self.chunk_offset as int,
                    self.current_array.len_s() as int,
                ) =~= Seq::<(SpecVal, bool)>::empty());
                assert(self.rem_elems() =~= stack_elems(self.chunks@));
                assert(self.rem_elems().len() > 0);
                assert(self.chunks@.len() > 0);
            }
            let ghost pre = self.rem_elems();
            let arr = match self.chunks.pop() {
                Some(arr) => arr,
                None => vstd::pervasive::unreached(),
            };
            self.current_array = arr;
            self.chunk_offset = 0;
            proof {
                assert(col_elems(self.current_array).subrange(
                    0,
                    self.current_array.len_s() as int,
                ) =~= col_elems(self.current_array));
                assert(self.rem_elems() =~= pre);
            }
        }
        let c = self.current_array.sliced(self.chunk_offset, 1, self.name.clone());
        let ghost pre = self.rem_elems();
        self.offset += 1;
        self.chunk_offset += 1;
        proof {
            let ck = self.chunk_offset - 1;
            assert(pre[0] == (self.current_array.raw()[ck], self.current_array.valid()[ck]));
            assert(c.raw() =~= seq![pre[0].0]);
            assert(c.valid() =~= seq![pre[0].1]);
            assert(self.rem_elems() =~= pre.subrange(1, pre.len() as int));
        }
        Some(Some(c))
    }
}

/// Iterator over an already-aggregated list column: each advance hands out
/// the next list row's sub-column, or `None` where that row is a null list.
pub struct ListIter {
    pub list: ListColumn,
    pub name: String,
    pub pos_idx: usize,
}

impl ListIter {
    pub open spec fn wf(&self) -> bool {
        &&& self.list.wf()
        &&& self.pos_idx <= self.list.num_lists()
    }

    pub fn next(&mut self) -> (r: Option<Option<Column>>)
        requires
            old(self).wf(),
        ensures
            final(self).wf(),
            final(self).list == old(self).list,
            final(self).name == old(self).name,
            old(self).pos_idx >= old(self).list.num_lists() ==> r is None && final(self).pos_idx
                == old(self).pos_idx,
            old(self).pos_idx < old(self).list.num_lists() ==> {
                &&& final(self).pos_idx == old(self).pos_idx + 1
                &&& match r {
                    Some(item) => {
                        &&& (item is Some <==> old(self).list.list_valid(old(self).pos_idx as int))
                        &&& match item {
                            Some(c) => {
                                &&& c.wf()
                                &&& c.name_s() == old(self).name@
                                &&& c.kind() == old(self).list.values.kind()
                                &&& c.len_s() == old(self).list.list_len(old(self).pos_idx as int)
                                &&& c.raw() == old(self).list.list_raw(old(self).pos_idx as int)
                                &&& c.valid() == old(self).list.values.valid().subrange(
                                    old(self).list.offsets@[old(self).pos_idx as int] as int,
                                    old(self).list.offsets@[old(self).pos_idx as int + 1] as int,
                                )
                            },
                            None => true,
                        }
                    },
                    None => false,
                }
            },
    {
        let n = self.list.offsets.len() - 1;
        if self.pos_idx == n {
            None
        } else {
            let item = self.list.group_view(self.pos_idx, self.name.clone());
            self.pos_idx += 1;
            Some(item)
        }
    }
}

/// One logical column held as several physical chunks, as the evaluator
/// stores an already-reduced per-group value.
pub struct ChunkedColumn {
    pub name: String,
    pub chunks: Vec<Column>,
}

impl ChunkedColumn {
    pub open spec fn wf(&self) -> bool {
        &&& self.chunks@.len() >= 1
        &&& forall|i: int|
            0 <= i < self.chunks@.len() ==> (#[trigger] self.chunks@[i]).wf()
                && self.chunks@[i].kind() == self.chunks@[0].kind()
    }

    pub open spec fn elems(&self) -> Seq<(SpecVal, bool)> {
        chunks_elems(self.chunks@)
    }

    pub open spec fn kind(&self) -> Kind {
        self.chunks@[0].kind()
    }
}

/// Aggregation state of a column handed to the iterator, assigned by the
/// upstream evaluator before construction and immutable afterwards.
pub enum AggState {
    /// One value logically broadcast to every row of every group.
    Literal(Column),
    /// Exactly one value per group, stored flat (possibly in chunks).
    AggregatedScalar(ChunkedColumn),
    /// Already one list per group.
    AggregatedList(ListColumn),
    /// Raw per-row values; grouping not yet applied.
    NotAggregated(Column),
}

impl AggState {
    pub open spec fn state_name(&self) -> Seq<char> {
        match self {
            AggState::Literal(c) => c.name_s(),
            AggState::AggregatedScalar(cc) => cc.name@,
            AggState::AggregatedList(lc) => lc.name@,
            AggState::NotAggregated(c) => c.name_s(),
        }
    }
}

/// The amortized per-group iterator: a forward-only, non-restartable cursor
/// yielding one item per group, in group order. The strategy is selected
/// once, from the aggregation state, and never re-evaluated mid-iteration.
pub enum GroupsIter {
    Lit(LitIter),
    Flat(FlatIter),
    List(ListIter),
}

impl GroupsIter {
    pub open spec fn wf(&self) -> bool {
        match self {
            GroupsIter::Lit(it) => it.wf(),
            GroupsIter::Flat(it) => it.wf(),
            GroupsIter::List(it) => it.wf(),
        }
    }

    /// Number of items the whole iteration yields.
    pub open spec fn total(&self) -> int {
        match self {
            GroupsIter::Lit(it) => it.len as int,
            GroupsIter::Flat(it) => it.len as int,
            GroupsIter::List(it) => it.list.num_lists() as int,
        }
    }

    /// Number of items yielded so far.
    pub open spec fn pos(&self) -> int {
        match self {
            GroupsIter::Lit(it) => it.offset as int,
            GroupsIter::Flat(it) => it.offset as int,
            GroupsIter::List(it) => it.pos_idx as int,
        }
    }

    /// Name carried by every yielded item.
    pub open spec fn name_model(&self) -> Seq<char> {
        match self {
            GroupsIter::Lit(it) => it.item.name_s(),
            GroupsIter::Flat(it) => it.name@,
            GroupsIter::List(it) => it.name@,
        }
    }

    /// Element kind of every yielded item.
    pub open spec fn kind_model(&self) -> Kind {
        match self {
            GroupsIter::Lit(it) => it.item.kind(),
            GroupsIter::Flat(it) => it.kind_model(),
            GroupsIter::List(it) => it.list.values.kind(),
        }
    }

    /// Whether item `k` is a present group view (`false`: a null list row,
    /// yielded as `None`). Meaningful for `k` not yet consumed.
    pub open spec fn item_present(&self, k: int) -> bool {
        match self {
            GroupsIter::Lit(_) => true,
            GroupsIter::Flat(_) => true,
            GroupsIter::List(it) => it.list.list_valid(k),
        }
    }

    /// Raw elements of item `k`. Meaningful for `k` not yet consumed.
    pub open spec fn raw_at(&self, k: int) -> Seq<SpecVal> {
        match self {
            GroupsIter::Lit(it) => it.item.raw(),
            GroupsIter::Flat(it) => seq![it.rem_elems()[k - it.offset].0],
            GroupsIter::List(it) => it.list.list_raw(k),
        }
    }

    /// Validity bits of item `k`. Meaningful for `k` not yet consumed.
    pub open spec fn valid_model_at(&self, k: int) -> Seq<bool> {
        match self {
            GroupsIter::Lit(it) => it.item.valid(),
            GroupsIter::Flat(it) => seq![it.rem_elems()[k - it.offset].1],
            GroupsIter::List(it) => it.list.values.valid().subrange(
                it.list.offsets@[k] as int,
                it.list.offsets@[k + 1] as int,
            ),
        }
    }

    /// Advances the cursor. `None` once every group has been yielded;
    /// `Some(None)` for a null list row; otherwise a view of the next
    /// group's sub-column. The view is a snapshot of the cursor's position:
    /// the iterator itself is the single owner of the backing state and
    /// `next` is its only mutator.
    pub fn next(&mut self) -> (r: Option<Option<Column>>)
        requires
            old(self).wf(),
        ensures
            final(self).wf(),
            final(self).total() == old(self).total(),
            final(self).name_model() == old(self).name_model(),
            final(self).kind_model() == old(self).kind_model(),
            forall|k: int|
                final(self).pos() <= k < final(self).total() ==> #[trigger] final(self).raw_at(k)
                    == old(self).raw_at(k) && final(self).valid_model_at(k) == old(
                    self,
                ).valid_model_at(k) && final(self).item_present(k) == old(self).item_present(k),
            old(self).pos() >= old(self).total() ==> r is None && final(self).pos() == old(
                self,
            ).pos(),
            old(self).pos() < old(self).total() ==> {
                &&& final(self).pos() == old(self).pos() + 1
                &&& match r {
                    Some(item) => {
                        &&& (item is Some <==> old(self).item_present(old(self).pos()))
                        &&& match item {
                            Some(c) => {
                                &&& c.wf()
                                &&& c.name_s() == old(self).name_model()
                                &&& c.kind() == old(self).kind_model()
                                &&& c.raw() == old(self).raw_at(old(self).pos())
                                &&& c.valid() == old(self).valid_model_at(old(self).pos())
                            },
                            None => true,
                        }
                    },
                    None => false,
                }
            },
    {
        match self {
            GroupsIter::Lit(it) => it.next(),
            GroupsIter::Flat(it) => it.next(),
            GroupsIter::List(it) => it.next(),
        }
    }

    /// Number of items still to come: the iteration's size hint.
    pub fn remaining_count(&self) -> (r: usize)
        requires
            self.wf(),
        ensures
            r == self.total() - self.pos(),
    {
        match self {
            GroupsIter::Lit(it) => it.len - it.offset,
            GroupsIter::Flat(it) => it.len - it.offset,
            GroupsIter::List(it) => (it.list.offsets.len() - 1) - it.pos_idx,
        }
    }
}

/// Items the literal strategy owes: one per group, every one the broadcast
/// value.
pub open spec fn literal_items_ok(r: GroupsIter, c: Column, n: int) -> bool {
    &&& r.kind_model() == c.kind()
    &&& forall|k: int|
        0 <= k < n ==> #[trigger] r.item_present(k) && r.raw_at(k) == c.raw()
            && r.valid_model_at(k) == c.valid()
}

/// Items the aggregated-scalar strategy owes: the `k`-th item is the
/// one-element view of the `k`-th flat value.
pub open spec fn scalar_items_ok(r: GroupsIter, cc: ChunkedColumn, n: int) -> bool {
    &&& r.kind_model() == cc.kind()
    &&& forall|k: int|
        0 <= k < n ==> #[trigger] r.item_present(k) && r.raw_at(k) == seq![cc.elems()[k].0]
            && r.valid_model_at(k) == seq![cc.elems()[k].1]
}

/// Items the aggregated-list strategy owes: the `k`-th item is list row `k`,
/// `None` exactly where that row is a null list.
pub open spec fn list_items_ok(r: GroupsIter, lc: ListColumn, n: int) -> bool {
    &&& r.kind_model() == lc.values.kind()
    &&& forall|k: int|
        0 <= k < n ==> #[trigger] r.item_present(k) == lc.list_valid(k) && r.raw_at(k)
            == lc.list_raw(k)
}

/// Items the not-aggregated strategy owes: the `k`-th item is group `k`'s
/// own gathered element sequence.
pub open spec fn grouped_items_ok(r: GroupsIter, c: Column, g: GroupsType) -> bool {
    &&& r.kind_model() == c.kind()
    &&& forall|k: int|
        0 <= k < g.num_groups() ==> #[trigger] r.item_present(k) && r.raw_at(k) == gather(
            c.raw(),
            g.sel(k),
        ) && r.valid_model_at(k) == gather(c.valid(), g.sel(k))
}

/// Literal strategy: one single-element backing container made up front,
/// handed out once per group, unchanged.
fn iter_literal(c: Column, n: usize, keep_names: bool) -> (r: GroupsIter)
    requires
        c.wf(),
        c.len_s() == 1,
    ensures
        r.wf(),
        r.pos() == 0,
        r.total() == n,
        r.name_model() == if keep_names { c.name_s() } else { Seq::<char>::empty() },
        literal_items_ok(r, c, n as int),
{
    let name = if keep_names {
        c.get_name()
    } else {
        String::new()
    };
    let item = c.sliced(0, 1, name);
    proof {
        assert(item.raw() =~= c.raw());
        assert(item.valid() =~= c.valid());
    }
    GroupsIter::Lit(LitIter::new(item, n))
}

/// Aggregated-scalar strategy: a sliding one-element cursor over the flat
/// chunks of the per-group values.
fn iter_scalar(cc: ChunkedColumn, n: usize, keep_names: bool) -> (r: GroupsIter)
    requires
        cc.wf(),
        cc.elems().len() == n,
    ensures
        r.wf(),
        r.pos() == 0,
        r.total() == n,
        r.name_model() == if keep_names { cc.name@ } else { Seq::<char>::empty() },
        scalar_items_ok(r, cc, n as int),
{
    let name = if keep_names {
        cc.name.clone()
    } else {
        String::new()
    };
    let it = GroupsIter::Flat(FlatIter::new(cc.chunks, n, name));
    proof {
        assert forall|k: int|
            0 <= k < n implies #[trigger] it.item_present(k) && it.raw_at(k) == seq![
            cc.elems()[k].0,
        ] && it.valid_model_at(k) == seq![cc.elems()[k].1] by {
            assert(it.raw_at(k) == seq![cc.elems()[k].0]);
            assert(it.valid_model_at(k) == seq![cc.elems()[k].1]);
        }
    }
    it
}

/// Aggregated-list strategy: each list row's own sub-view, with no extra
/// offset bookkeeping at this layer.
fn iter_list(lc: ListColumn, keep_names: bool) -> (r: GroupsIter)
    requires
        lc.wf(),
    ensures
        r.wf(),
        r.pos() == 0,
        r.total() == lc.num_lists(),
        r.name_model() == if keep_names { lc.name@ } else { Seq::<char>::empty() },
        list_items_ok(r, lc, lc.num_lists() as int),
{
    let name = if keep_names {
        lc.name.clone()
    } else {
        String::new()
    };
    GroupsIter::List(ListIter { list: lc, name, pos_idx: 0 })
}

/// Bridges the aggregation engine's row facts to the iterator's item model:
/// a fresh list iterator over a faithfully aggregated list column yields,
/// for item `k`, group `k`'s own gathered elements.
proof fn lemma_grouped_items(li: ListIter, c: Column, g: GroupsType)
    requires
        li.pos_idx == 0,
        li.list.values.kind() == c.kind(),
        crate::laws::rows_match(li.list, g, c.raw(), c.valid()),
    ensures
        grouped_items_ok(GroupsIter::List(li), c, g),
{
    let it = GroupsIter::List(li);
    assert forall|k: int|
        0 <= k < g.num_groups() implies #[trigger] it.item_present(k) && it.raw_at(k) == gather(
        c.raw(),
        g.sel(k),
    ) && it.valid_model_at(k) == gather(c.valid(), g.sel(k)) by {
        assert(crate::laws::row_ok(li.list, g, c.raw(), c.valid(), k));
    }
}

/// Not-aggregated strategy: grouping is forced first, by the aggregation
/// engine, and the resulting list column is iterated.
#[verifier::rlimit(100)]
#[verifier::spinoff_prover]
fn iter_grouping(c: Column, groups: &GroupsType, keep_names: bool) -> (r: GroupsIter)
    requires
        c.wf(),
        groups.in_bounds(c.len_s()),
        groups.total_len() <= usize::MAX,
    ensures
        r.wf(),
        r.pos() == 0,
        r.total() == groups.num_groups(),
        r.name_model() == if keep_names { c.name_s() } else { Seq::<char>::empty() },
        grouped_items_ok(r, c, *groups),
{
    let name = if keep_names {
        c.get_name()
    } else {
        String::new()
    };
    let lc = c.agg_list(groups);
    proof {
        lemma_flat_sel_len(groups, groups.num_groups() as int);
        crate::laws::lemma_aggregated_rows(lc, groups, c.raw(), c.valid());
    }
    let it = GroupsIter::List(ListIter { list: lc, name, pos_idx: 0 });
    proof {
        lemma_grouped_items(it->List_0, c, *groups);
    }
    it
}

/// Builds the per-group iterator for a column in the given aggregation
/// state, selecting one of the strategies once up front:
/// a broadcast single-element cursor for `Literal`, a sliding one-element
/// cursor over the flat chunks for `AggregatedScalar`, and the list column's
/// own per-row views for `AggregatedList` — with `NotAggregated` first
/// forced into a list by the aggregation engine. Items come strictly in
/// ascending group order; each item keeps the source column's name when
/// `keep_names` is set and carries the empty name otherwise.
pub fn iterate_groups(state: AggState, groups: &GroupsType, keep_names: bool) -> (r: GroupsIter)
    requires
        match state {
            AggState::Literal(c) => c.wf() && c.len_s() == 1,
            AggState::AggregatedScalar(cc) => cc.wf() && cc.elems().len() == groups.num_groups(),
            AggState::AggregatedList(lc) => lc.wf() && lc.num_lists() == groups.num_groups(),
            AggState::NotAggregated(c) => c.wf() && groups.in_bounds(c.len_s())
                && groups.total_len() <= usize::MAX,
        },
    ensures
        r.wf(),
        r.pos() == 0,
        r.total() == groups.num_groups(),
        r.name_model() == if keep_names {
            state.state_name()
        } else {
            Seq::<char>::empty()
        },
        state matches AggState::Literal(c) ==> literal_items_ok(
            r,
            c,
            groups.num_groups() as int,
        ),
        state matches AggState::AggregatedScalar(cc) ==> scalar_items_ok(
            r,
            cc,
            groups.num_groups() as int,
        ),
        state matches AggState::AggregatedList(lc) ==> list_items_ok(
            r,
            lc,
            groups.num_groups() as int,
        ),
        state matches AggState::NotAggregated(c) ==> grouped_items_ok(r, c, *groups),
{
    let n = match groups {
        GroupsType::Idx(gs) => gs.len(),
        GroupsType::Slice(gs) => gs.len(),
    };
    match state {
        AggState::Literal(c) => iter_literal(c, n, keep_names),
        AggState::AggregatedScalar(cc) => iter_scalar(cc, n, keep_names),
        AggState::AggregatedList(lc) => iter_list(lc, keep_names),
        AggState::NotAggregated(c) => iter_grouping(c, groups, keep_names),
    }
}

} // verus!
