use vstd::prelude::*;
use crate::values::{SpecVal, Kind, gather, usize_sel};

verus! {

/// A validity view with every position present.
pub open spec fn all_true(n: nat) -> Seq<bool> {
    Seq::new(n, |i: int| true)
}

/// A validity view with every position null.
pub open spec fn all_false(n: nat) -> Seq<bool> {
    Seq::new(n, |i: int| false)
}

/// True iff some position of the validity view is null.
pub open spec fn some_null(valid: Seq<bool>) -> bool {
    exists|i: int| 0 <= i < valid.len() && !valid[i]
}

/// Whether any entry of a validity buffer is cleared.
pub fn any_false(v: &Vec<bool>) -> (r: bool)
    ensures
        r == some_null(v@),
{
    let mut i: usize = 0;
    while i < v.len()
        invariant
            i <= v@.len(),
            forall|j: int| 0 <= j < i ==> v@[j],
        decreases v@.len() - i,
    {
        if !v[i] {
            return true;
        }
        i += 1;
    }
    false
}

/// Fixed-width primitive column: a flat value buffer and an optional
/// validity bitmap (absent means every position is present).
pub struct IntColumn {
    pub name: String,
    pub values: Vec<i64>,
    pub validity: Option<Vec<bool>>,
}

impl IntColumn {
    pub open spec fn wf(&self) -> bool {
        match self.validity {
            Some(v) => v@.len() == self.values@.len(),
            None => true,
        }
    }

    pub open spec fn len_s(&self) -> nat {
        self.values@.len()
    }

    pub open spec fn raw(&self) -> Seq<SpecVal> {
        Seq::new(self.values@.len(), |i: int| SpecVal::Int(self.values@[i] as int))
    }

    pub open spec fn valid(&self) -> Seq<bool> {
        match self.validity {
            Some(v) => v@,
            None => all_true(self.values@.len()),
        }
    }

    pub open spec fn has_buf(&self) -> bool {
        self.validity is Some
    }

    pub open spec fn has_nulls(&self) -> bool {
        some_null(self.valid())
    }

    /// Value of the validity bit at `i` (present when no buffer is allocated).
    pub fn valid_at(&self, i: usize) -> (r: bool)
        requires
            self.wf(),
            i < self.len_s(),
        ensures
            r == self.valid()[i as int],
    {
        match &self.validity {
            Some(v) => v[i],
            None => true,
        }
    }

    pub fn has_nulls_exec(&self) -> (r: bool)
        requires
            self.wf(),
        ensures
            r == self.has_nulls(),
    {
        match &self.validity {
            Some(v) => any_false(v),
            None => false,
        }
    }

    /// Builds a column from optional values, as a host binding hands them in:
    /// a null contributes a cleared validity bit over a zeroed slot, and the
    /// validity buffer is allocated only when at least one value is null.
    pub fn from_options(name: String, vals: &Vec<Option<i64>>) -> (r: IntColumn)
        ensures
            r.wf(),
            r.name@ == name@,
            r.len_s() == vals@.len(),
            forall|i: int|
                0 <= i < vals@.len() ==> r.raw()[i] == (match vals@[i] {
                    Some(v) => SpecVal::Int(v as int),
                    None => SpecVal::Int(0),
                }),
            forall|i: int| 0 <= i < vals@.len() ==> r.valid()[i] == (vals@[i] is Some),
            r.has_buf() == (exists|i: int| 0 <= i < vals@.len() && vals@[i] is None),
    {
        let mut values: Vec<i64> = Vec::new();
        let mut bits: Vec<bool> = Vec::new();
        let mut saw_null = false;
        let mut i: usize = 0;
        while i < vals.len()
            invariant
                i <= vals@.len(),
                values@.len() == i,
                bits@.len() == i,
                forall|j: int|
                    0 <= j < i ==> values@[j] == (match vals@[j] {
                        Some(v) => v,
                        None => 0i64,
                    }),
                forall|j: int| 0 <= j < i ==> bits@[j] == (vals@[j] is Some),
                saw_null == (exists|j: int| 0 <= j < i && vals@[j] is None),
            decreases vals@.len() - i,
        {
            match vals[i] {
                Some(v) => {
                    values.push(v);
                    bits.push(true);
                },
                None => {
                    values.push(0);
                    bits.push(false);
                    saw_null = true;
                },
            }
            i += 1;
        }
        let validity = if saw_null {
            Some(bits)
        } else {
            None
        };
        IntColumn { name, values, validity }
    }

    /// Bulk gather: a new column reading this one at `idxs`, in that order.
    /// The result carries a validity buffer exactly when the source has a
    /// null anywhere.
    pub fn take(&self, idxs: &Vec<usize>) -> (r: IntColumn)
        requires
            self.wf(),
            forall|j: int| 0 <= j < idxs@.len() ==> idxs@[j] < self.len_s(),
        ensures
            r.wf(),
            r.name@ == self.name@,
            r.len_s() == idxs@.len(),
            r.raw() == gather(self.raw(), usize_sel(idxs@)),
            r.valid() == gather(self.valid(), usize_sel(idxs@)),
            r.has_buf() == self.has_nulls(),
    {
        let mut values: Vec<i64> = Vec::new();
        let mut bits: Vec<bool> = Vec::new();
        let mut j: usize = 0;
        while j < idxs.len()
            invariant
                self.wf(),
                forall|p: int| 0 <= p < idxs@.len() ==> idxs@[p] < self.len_s(),
                j <= idxs@.len(),
                values@.len() == j,
                bits@.len() == j,
                forall|p: int| 0 <= p < j ==> values@[p] == self.values@[idxs@[p] as int],
                forall|p: int| 0 <= p < j ==> bits@[p] == self.valid()[idxs@[p] as int],
            decreases idxs@.len() - j,
        {
            let idx = idxs[j];
            values.push(self.values[idx]);
            bits.push(self.valid_at(idx));
            j += 1;
        }
        let validity = if self.has_nulls_exec() {
            Some(bits)
        } else {
            None
        };
        let r = IntColumn { name: self.name.clone(), values, validity };
        proof {
            assert(r.raw() =~= gather(self.raw(), usize_sel(idxs@)));
            assert(r.valid() =~= gather(self.valid(), usize_sel(idxs@)));
        }
        r
    }

    /// A copy of the rows `start..start + len`, keeping the validity buffer
    /// exactly when the source allocated one.
    pub fn sliced(&self, start: usize, len: usize, name: String) -> (r: IntColumn)
        requires
            self.wf(),
            start + len <= self.len_s(),
        ensures
            r.wf(),
            r.name@ == name@,
            r.len_s() == len,
            r.raw() == self.raw().subrange(start as int, start + len),
            r.valid() == self.valid().subrange(start as int, start + len),
            r.has_buf() == self.has_buf(),
    {
        let n = self.values.len();
        let mut values: Vec<i64> = Vec::new();
        let mut bits: Vec<bool> = Vec::new();
        let mut j: usize = 0;
        while j < len
            invariant
                self.wf(),
                n == self.len_s(),
                start + len <= self.len_s(),
                j <= len,
                values@.len() == j,
                bits@.len() == j,
                forall|p: int| 0 <= p < j ==> values@[p] == self.values@[start + p],
                forall|p: int| 0 <= p < j ==> bits@[p] == self.valid()[start + p],
            decreases len - j,
        {
            values.push(self.values[start + j]);
            bits.push(self.valid_at(start + j));
            j += 1;
        }
        let validity = if self.validity.is_some() {
            Some(bits)
        } else {
            None
        };
        let r = IntColumn { name, values, validity };
        proof {
            assert(r.raw() =~= self.raw().subrange(start as int, start + len));
            assert(r.valid() =~= self.valid().subrange(start as int, start + len));
        }
        r
    }
}

/// Boolean column. Its aggregation goes through the shared gather-and-wrap
/// strategy rather than the primitive fast path.
pub struct BoolColumn {
    pub name: String,
    pub values: Vec<bool>,
    pub validity: Option<Vec<bool>>,
}

impl BoolColumn {
    pub open spec fn wf(&self) -> bool {
        match self.validity {
            Some(v) => v@.len() == self.values@.len(),
            None => true,
        }
    }

    pub open spec fn len_s(&self) -> nat {
        self.values@.len()
    }

    pub open spec fn raw(&self) -> Seq<SpecVal> {
        Seq::new(self.values@.len(), |i: int| SpecVal::Bool(self.values@[i]))
    }

    pub open spec fn valid(&self) -> Seq<bool> {
        match self.validity {
            Some(v) => v@,
            None => all_true(self.values@.len()),
        }
    }

    pub open spec fn has_buf(&self) -> bool {
        self.validity is Some
    }

    pub open spec fn has_nulls(&self) -> bool {
        some_null(self.valid())
    }

    pub fn valid_at(&self, i: usize) -> (r: bool)
        requires
            self.wf(),
            i < self.len_s(),
        ensures
            r == self.valid()[i as int],
    {
        match &self.validity {
            Some(v) => v[i],
            None => true,
        }
    }

    pub fn has_nulls_exec(&self) -> (r: bool)
        requires
            self.wf(),
        ensures
            r == self.has_nulls(),
    {
        match &self.validity {
            Some(v) => any_false(v),
            None => false,
        }
    }

    /// Builds a column from optional values; a null leaves a cleared bit over
    /// a `false` slot, and the buffer exists only when some value is null.
    pub fn from_options(name: String, vals: &Vec<Option<bool>>) -> (r: BoolColumn)
        ensures
            r.wf(),
            r.name@ == name@,
            r.len_s() == vals@.len(),
            forall|i: int|
                0 <= i < vals@.len() ==> r.raw()[i] == (match vals@[i] {
                    Some(v) => SpecVal::Bool(v),
                    None => SpecVal::Bool(false),
                }),
            forall|i: int| 0 <= i < vals@.len() ==> r.valid()[i] == (vals@[i] is Some),
            r.has_buf() == (exists|i: int| 0 <= i < vals@.len() && vals@[i] is None),
    {
        let mut values: Vec<bool> = Vec::new();
        let mut bits: Vec<bool> = Vec::new();
        let mut saw_null = false;
        let mut i: usize = 0;
        while i < vals.len()
            invariant
                i <= vals@.len(),
                values@.len() == i,
                bits@.len() == i,
                forall|j: int|
                    0 <= j < i ==> values@[j] == (match vals@[j] {
                        Some(v) => v,
                        None => false,
                    }),
                forall|j: int| 0 <= j < i ==> bits@[j] == (vals@[j] is Some),
                saw_null == (exists|j: int| 0 <= j < i && vals@[j] is None),
            decreases vals@.len() - i,
        {
            match vals[i] {
                Some(v) => {
                    values.push(v);
                    bits.push(true);
                },
                None => {
                    values.push(false);
                    bits.push(false);
                    saw_null = true;
                },
            }
            i += 1;
        }
        let validity = if saw_null {
            Some(bits)
        } else {
            None
        };
        BoolColumn { name, values, validity }
    }

    /// Bulk gather, as on the primitive column.
    pub fn take(&self, idxs: &Vec<usize>) -> (r: BoolColumn)
        requires
            self.wf(),
            forall|j: int| 0 <= j < idxs@.len() ==> idxs@[j] < self.len_s(),
        ensures
            r.wf(),
            r.name@ == self.name@,
            r.len_s() == idxs@.len(),
            r.raw() == gather(self.raw(), usize_sel(idxs@)),
            r.valid() == gather(self.valid(), usize_sel(idxs@)),
            r.has_buf() == self.has_nulls(),
    {
        let mut values: Vec<bool> = Vec::new();
        let mut bits: Vec<bool> = Vec::new();
        let mut j: usize = 0;
        while j < idxs.len()
            invariant
                self.wf(),
                forall|p: int| 0 <= p < idxs@.len() ==> idxs@[p] < self.len_s(),
                j <= idxs@.len(),
                values@.len() == j,
                bits@.len() == j,
                forall|p: int| 0 <= p < j ==> values@[p] == self.values@[idxs@[p] as int],
                forall|p: int| 0 <= p < j ==> bits@[p] == self.valid()[idxs@[p] as int],
            decreases idxs@.len() - j,
        {
            let idx = idxs[j];
            values.push(self.values[idx]);
            bits.push(self.valid_at(idx));
            j += 1;
        }
        let validity = if self.has_nulls_exec() {
            Some(bits)
        } else {
            None
        };
        let r = BoolColumn { name: self.name.clone(), values, validity };
        proof {
            assert(r.raw() =~= gather(self.raw(), usize_sel(idxs@)));
            assert(r.valid() =~= gather(self.valid(), usize_sel(idxs@)));
        }
        r
    }

    /// A whole-column copy with the validity buffer normalized: present
    /// exactly when the column has at least one null.
    pub fn take_all(&self) -> (r: BoolColumn)
        requires
            self.wf(),
        ensures
            r.wf(),
            r.name@ == self.name@,
            r.len_s() == self.len_s(),
            r.raw() == self.raw(),
            r.valid() == self.valid(),
            r.has_buf() == self.has_nulls(),
    {
        let mut c = self.sliced(0, self.values.len(), self.name.clone());
        if !self.has_nulls_exec() {
            c.validity = None;
        }
        proof {
            assert(c.raw() =~= self.raw());
            assert(c.valid() =~= self.valid());
        }
        c
    }

    /// A copy of the rows `start..start + len`.
    pub fn sliced(&self, start: usize, len: usize, name: String) -> (r: BoolColumn)
        requires
            self.wf(),
            start + len <= self.len_s(),
        ensures
            r.wf(),
            r.name@ == name@,
            r.len_s() == len,
            r.raw() == self.raw().subrange(start as int, start + len),
            r.valid() == self.valid().subrange(start as int, start + len),
            r.has_buf() == self.has_buf(),
    {
        let n = self.values.len();
        let mut values: Vec<bool> = Vec::new();
        let mut bits: Vec<bool> = Vec::new();
        let mut j: usize = 0;
        while j < len
            invariant
                self.wf(),
                n == self.len_s(),
                start + len <= self.len_s(),
                j <= len,
                values@.len() == j,
                bits@.len() == j,
                forall|p: int| 0 <= p < j ==> values@[p] == self.values@[start + p],
                forall|p: int| 0 <= p < j ==> bits@[p] == self.valid()[start + p],
            decreases len - j,
        {
            values.push(self.values[start + j]);
            bits.push(self.valid_at(start + j));
            j += 1;
        }
        let validity = if self.validity.is_some() {
            Some(bits)
        } else {
            None
        };
        let r = BoolColumn { name, values, validity };
        proof {
            assert(r.raw() =~= self.raw().subrange(start as int, start + len));
            assert(r.valid() =~= self.valid().subrange(start as int, start + len));
        }
        r
    }
}

/// Byte-for-byte copy of one variable-width element.
pub fn copy_u8s(v: &Vec<u8>) -> (r: Vec<u8>)
    ensures
        r@ == v@,
{
    let mut r: Vec<u8> = Vec::new();
    let mut i: usize = 0;
    while i < v.len()
        invariant
            i <= v@.len(),
            r@ == v@.subrange(0, i as int),
        decreases v@.len() - i,
    {
        r.push(v[i]);
        i += 1;
    }
    proof {
        assert(r@ =~= v@);
    }
    r
}

/// Variable-width column (text or raw bytes): one byte sequence per element.
pub struct BytesColumn {
    pub name: String,
    pub values: Vec<Vec<u8>>,
    pub validity: Option<Vec<bool>>,
}

impl BytesColumn {
    pub open spec fn wf(&self) -> bool {
        match self.validity {
            Some(v) => v@.len() == self.values@.len(),
            None => true,
        }
    }

    pub open spec fn len_s(&self) -> nat {
        self.values@.len()
    }

    pub open spec fn raw(&self) -> Seq<SpecVal> {
        Seq::new(self.values@.len(), |i: int| SpecVal::Bytes(self.values@[i]@))
    }

    pub open spec fn valid(&self) -> Seq<bool> {
        match self.validity {
            Some(v) => v@,
            None => all_true(self.values@.len()),
        }
    }

    pub open spec fn has_buf(&self) -> bool {
        self.validity is Some
    }

    pub open spec fn has_nulls(&self) -> bool {
        some_null(self.valid())
    }

    pub fn valid_at(&self, i: usize) -> (r: bool)
        requires
            self.wf(),
            i < self.len_s(),
        ensures
            r == self.valid()[i as int],
    {
        match &self.validity {
            Some(v) => v[i],
            None => true,
        }
    }

    pub fn has_nulls_exec(&self) -> (r: bool)
        requires
            self.wf(),
        ensures
            r == self.has_nulls(),
    {
        match &self.validity {
            Some(v) => any_false(v),
            None => false,
        }
    }

    /// Builds a column from optional byte values; a null leaves a cleared
    /// bit over an empty slot.
    pub fn from_options(name: String, vals: &Vec<Option<Vec<u8>>>) -> (r: BytesColumn)
        ensures
            r.wf(),
            r.name@ == name@,
            r.len_s() == vals@.len(),
            forall|i: int|
                0 <= i < vals@.len() ==> r.raw()[i] == (match vals@[i] {
                    Some(v) => SpecVal::Bytes(v@),
                    None => SpecVal::Bytes(Seq::<u8>::empty()),
                }),
            forall|i: int| 0 <= i < vals@.len() ==> r.valid()[i] == (vals@[i] is Some),
            r.has_buf() == (exists|i: int| 0 <= i < vals@.len() && vals@[i] is None),
    {
        let mut values: Vec<Vec<u8>> = Vec::new();
        let mut bits: Vec<bool> = Vec::new();
        let mut saw_null = false;
        let mut i: usize = 0;
        while i < vals.len()
            invariant
                i <= vals@.len(),
                values@.len() == i,
                bits@.len() == i,
                forall|j: int|
                    0 <= j < i ==> #[trigger] values@[j]@ == (match vals@[j] {
                        Some(v) => v@,
                        None => Seq::<u8>::empty(),
                    }),
                forall|j: int| 0 <= j < i ==> bits@[j] == (vals@[j] is Some),
                saw_null == (exists|j: int| 0 <= j < i && vals@[j] is None),
            decreases vals@.len() - i,
        {
            match &vals[i] {
                Some(v) => {
                    values.push(copy_u8s(v));
                    bits.push(true);
                },
                None => {
                    let empty: Vec<u8> = Vec::new();
                    values.push(empty);
                    bits.push(false);
                    saw_null = true;
                },
            }
            i += 1;
        }
        let validity = if saw_null {
            Some(bits)
        } else {
            None
        };
        BytesColumn { name, values, validity }
    }

    /// Bulk gather producing a new column of the same type, in index order.
    pub fn take(&self, idxs: &Vec<usize>) -> (r: BytesColumn)
        requires
            self.wf(),
            forall|j: int| 0 <= j < idxs@.len() ==> idxs@[j] < self.len_s(),
        ensures
            r.wf(),
            r.name@ == self.name@,
            r.len_s() == idxs@.len(),
            r.raw() == gather(self.raw(), usize_sel(idxs@)),
            r.valid() == gather(self.valid(), usize_sel(idxs@)),
            r.has_buf() == self.has_nulls(),
    {
        let mut values: Vec<Vec<u8>> = Vec::new();
        let mut bits: Vec<bool> = Vec::new();
        let mut j: usize = 0;
        while j < idxs.len()
            invariant
                self.wf(),
                forall|p: int| 0 <= p < idxs@.len() ==> idxs@[p] < self.len_s(),
                j <= idxs@.len(),
                values@.len() == j,
                bits@.len() == j,
                forall|p: int| 0 <= p < j ==> #[trigger] values@[p]@ == self.values@[idxs@[p] as int]@,
                forall|p: int| 0 <= p < j ==> bits@[p] == self.valid()[idxs@[p] as int],
            decreases idxs@.len() - j,
        {
            let idx = idxs[j];
            values.push(copy_u8s(&self.values[idx]));
            bits.push(self.valid_at(idx));
            j += 1;
        }
        let validity = if self.has_nulls_exec() {
            Some(bits)
        } else {
            None
        };
        let r = BytesColumn { name: self.name.clone(), values, validity };
        proof {
            assert(r.raw() =~= gather(self.raw(), usize_sel(idxs@)));
            assert(r.valid() =~= gather(self.valid(), usize_sel(idxs@)));
        }
        r
    }

    /// A whole-column copy with the validity buffer normalized: present
    /// exactly when the column has at least one null.
    pub fn take_all(&self) -> (r: BytesColumn)
        requires
            self.wf(),
        ensures
            r.wf(),
            r.name@ == self.name@,
            r.len_s() == self.len_s(),
            r.raw() == self.raw(),
            r.valid() == self.valid(),
            r.has_buf() == self.has_nulls(),
    {
        let mut c = self.sliced(0, self.values.len(), self.name.clone());
        if !self.has_nulls_exec() {
            c.validity = None;
        }
        proof {
            assert(c.raw() =~= self.raw());
            assert(c.valid() =~= self.valid());
        }
        c
    }

    /// A copy of the rows `start..start + len`.
    pub fn sliced(&self, start: usize, len: usize, name: String) -> (r: BytesColumn)
        requires
            self.wf(),
            start + len <= self.len_s(),
        ensures
            r.wf(),
            r.name@ == name@,
            r.len_s() == len,
            r.raw() == self.raw().subrange(start as int, start + len),
            r.valid() == self.valid().subrange(start as int, start + len),
            r.has_buf() == self.has_buf(),
    {
        let n = self.values.len();
        let mut values: Vec<Vec<u8>> = Vec::new();
        let mut bits: Vec<bool> = Vec::new();
        let mut j: usize = 0;
        while j < len
            invariant
                self.wf(),
                n == self.len_s(),
                start + len <= self.len_s(),
                j <= len,
                values@.len() == j,
                bits@.len() == j,
                forall|p: int| 0 <= p < j ==> #[trigger] values@[p]@ == self.values@[start + p]@,
                forall|p: int| 0 <= p < j ==> bits@[p] == self.valid()[start + p],
            decreases len - j,
        {
            values.push(copy_u8s(&self.values[start + j]));
            bits.push(self.valid_at(start + j));
            j += 1;
        }
        let validity = if self.validity.is_some() {
            Some(bits)
        } else {
            None
        };
        let r = BytesColumn { name, values, validity };
        proof {
            assert(r.raw() =~= self.raw().subrange(start as int, start + len));
            assert(r.valid() =~= self.valid().subrange(start as int, start + len));
        }
        r
    }
}

/// Opaque host-object column: each element is an externally owned value,
/// represented by the handle that identifies it. Aggregation must preserve
/// each handle exactly, never coercing it into another representation.
pub struct ObjectColumn {
    pub name: String,
    pub values: Vec<u64>,
    pub validity: Option<Vec<bool>>,
}

impl ObjectColumn {
    pub open spec fn wf(&self) -> bool {
        match self.validity {
            Some(v) => v@.len() == self.values@.len(),
            None => true,
        }
    }

    pub open spec fn len_s(&self) -> nat {
        self.values@.len()
    }

    pub open spec fn raw(&self) -> Seq<SpecVal> {
        Seq::new(self.values@.len(), |i: int| SpecVal::Obj(self.values@[i] as int))
    }

    pub open spec fn valid(&self) -> Seq<bool> {
        match self.validity {
            Some(v) => v@,
            None => all_true(self.values@.len()),
        }
    }

    pub open spec fn has_buf(&self) -> bool {
        self.validity is Some
    }

    pub open spec fn has_nulls(&self) -> bool {
        some_null(self.valid())
    }

    pub fn valid_at(&self, i: usize) -> (r: bool)
        requires
            self.wf(),
            i < self.len_s(),
        ensures
            r == self.valid()[i as int],
    {
        match &self.validity {
            Some(v) => v[i],
            None => true,
        }
    }

    pub fn has_nulls_exec(&self) -> (r: bool)
        requires
            self.wf(),
        ensures
            r == self.has_nulls(),
    {
        match &self.validity {
            Some(v) => any_false(v),
            None => false,
        }
    }

    /// Builds a column from handles, marking a position null exactly where
    /// the host marked its value absent; the buffer is allocated only when
    /// at least one position is null.
    pub fn from_handles(name: String, vals: &Vec<Option<u64>>) -> (r: ObjectColumn)
        ensures
            r.wf(),
            r.name@ == name@,
            r.len_s() == vals@.len(),
            forall|i: int|
                0 <= i < vals@.len() ==> r.raw()[i] == (match vals@[i] {
                    Some(v) => SpecVal::Obj(v as int),
                    None => SpecVal::Obj(0),
                }),
            forall|i: int| 0 <= i < vals@.len() ==> r.valid()[i] == (vals@[i] is Some),
            r.has_buf() == (exists|i: int| 0 <= i < vals@.len() && vals@[i] is None),
    {
        let mut values: Vec<u64> = Vec::new();
        let mut bits: Vec<bool> = Vec::new();
        let mut saw_null = false;
        let mut i: usize = 0;
        while i < vals.len()
            invariant
                i <= vals@.len(),
                values@.len() == i,
                bits@.len() == i,
                forall|j: int|
                    0 <= j < i ==> values@[j] == (match vals@[j] {
                        Some(v) => v,
                        None => 0u64,
                    }),
                forall|j: int| 0 <= j < i ==> bits@[j] == (vals@[j] is Some),
                saw_null == (exists|j: int| 0 <= j < i && vals@[j] is None),
            decreases vals@.len() - i,
        {
            match vals[i] {
                Some(v) => {
                    values.push(v);
                    bits.push(true);
                },
                None => {
                    values.push(0);
                    bits.push(false);
                    saw_null = true;
                },
            }
            i += 1;
        }
        let validity = if saw_null {
            Some(bits)
        } else {
            None
        };
        ObjectColumn { name, values, validity }
    }

    /// Bulk gather preserving each handle's identity.
    pub fn take(&self, idxs: &Vec<usize>) -> (r: ObjectColumn)
        requires
            self.wf(),
            forall|j: int| 0 <= j < idxs@.len() ==> idxs@[j] < self.len_s(),
        ensures
            r.wf(),
            r.name@ == self.name@,
            r.len_s() == idxs@.len(),
            r.raw() == gather(self.raw(), usize_sel(idxs@)),
            r.valid() == gather(self.valid(), usize_sel(idxs@)),
            r.has_buf() == self.has_nulls(),
    {
        let mut values: Vec<u64> = Vec::new();
        let mut bits: Vec<bool> = Vec::new();
        let mut j: usize = 0;
        while j < idxs.len()
            invariant
                self.wf(),
                forall|p: int| 0 <= p < idxs@.len() ==> idxs@[p] < self.len_s(),
                j <= idxs@.len(),
                values@.len() == j,
                bits@.len() == j,
                forall|p: int| 0 <= p < j ==> values@[p] == self.values@[idxs@[p] as int],
                forall|p: int| 0 <= p < j ==> bits@[p] == self.valid()[idxs@[p] as int],
            decreases idxs@.len() - j,
        {
            let idx = idxs[j];
            values.push(self.values[idx]);
            bits.push(self.valid_at(idx));
            j += 1;
        }
        let validity = if self.has_nulls_exec() {
            Some(bits)
        } else {
            None
        };
        let r = ObjectColumn { name: self.name.clone(), values, validity };
        proof {
            assert(r.raw() =~= gather(self.raw(), usize_sel(idxs@)));
            assert(r.valid() =~= gather(self.valid(), usize_sel(idxs@)));
        }
        r
    }

    /// A copy of the rows `start..start + len`.
    pub fn sliced(&self, start: usize, len: usize, name: String) -> (r: ObjectColumn)
        requires
            self.wf(),
            start + len <= self.len_s(),
        ensures
            r.wf(),
            r.name@ == name@,
            r.len_s() == len,
            r.raw() == self.raw().subrange(start as int, start + len),
            r.valid() == self.valid().subrange(start as int, start + len),
            r.has_buf() == self.has_buf(),
    {
        let n = self.values.len();
        let mut values: Vec<u64> = Vec::new();
        let mut bits: Vec<bool> = Vec::new();
        let mut j: usize = 0;
        while j < len
            invariant
                self.wf(),
                n == self.len_s(),
                start + len <= self.len_s(),
                j <= len,
                values@.len() == j,
                bits@.len() == j,
                forall|p: int| 0 <= p < j ==> values@[p] == self.values@[start + p],
                forall|p: int| 0 <= p < j ==> bits@[p] == self.valid()[start + p],
            decreases len - j,
        {
            values.push(self.values[start + j]);
            bits.push(self.valid_at(start + j));
            j += 1;
        }
        let validity = if self.validity.is_some() {
            Some(bits)
        } else {
            None
        };
        let r = ObjectColumn { name, values, validity };
        proof {
            assert(r.raw() =~= self.raw().subrange(start as int, start + len));
            assert(r.valid() =~= self.valid().subrange(start as int, start + len));
        }
        r
    }
}

/// Typed-null column: a length and nothing else. Every element is logically
/// absent by construction, so no value buffer or validity bitmap exists.
pub struct NullColumn {
    pub name: String,
    pub len: usize,
}

impl NullColumn {
    pub open spec fn wf(&self) -> bool {
        true
    }

    pub open spec fn len_s(&self) -> nat {
        self.len as nat
    }

    pub open spec fn raw(&self) -> Seq<SpecVal> {
        Seq::new(self.len as nat, |i: int| SpecVal::Nothing)
    }

    pub open spec fn valid(&self) -> Seq<bool> {
        all_false(self.len as nat)
    }

    pub open spec fn has_buf(&self) -> bool {
        false
    }

    pub fn new(name: String, len: usize) -> (r: NullColumn)
        ensures
            r.wf(),
            r.name@ == name@,
            r.len_s() == len,
    {
        NullColumn { name, len }
    }
}

/// Copy of a list of field names.
pub fn copy_strings(v: &Vec<String>) -> (r: Vec<String>)
    ensures
        r@ == v@,
{
    let mut r: Vec<String> = Vec::new();
    let mut i: usize = 0;
    while i < v.len()
        invariant
            i <= v@.len(),
            r@ == v@.subrange(0, i as int),
        decreases v@.len() - i,
    {
        r.push(v[i].clone());
        i += 1;
    }
    proof {
        assert(r@ =~= v@);
    }
    r
}

/// One field of a structured column.
pub enum FieldColumn {
    Int(IntColumn),
    Bool(BoolColumn),
    Bytes(BytesColumn),
}

impl FieldColumn {
    pub open spec fn wf(&self) -> bool {
        match self {
            FieldColumn::Int(c) => c.wf(),
            FieldColumn::Bool(c) => c.wf(),
            FieldColumn::Bytes(c) => c.wf(),
        }
    }

    pub open spec fn len_s(&self) -> nat {
        match self {
            FieldColumn::Int(c) => c.len_s(),
            FieldColumn::Bool(c) => c.len_s(),
            FieldColumn::Bytes(c) => c.len_s(),
        }
    }

    pub open spec fn raw(&self) -> Seq<SpecVal> {
        match self {
            FieldColumn::Int(c) => c.raw(),
            FieldColumn::Bool(c) => c.raw(),
            FieldColumn::Bytes(c) => c.raw(),
        }
    }

    pub open spec fn valid(&self) -> Seq<bool> {
        match self {
            FieldColumn::Int(c) => c.valid(),
            FieldColumn::Bool(c) => c.valid(),
            FieldColumn::Bytes(c) => c.valid(),
        }
    }

    pub open spec fn kind(&self) -> Kind {
        match self {
            FieldColumn::Int(_) => Kind::Int,
            FieldColumn::Bool(_) => Kind::Bool,
            FieldColumn::Bytes(_) => Kind::Bytes,
        }
    }

    /// Bulk gather on one field.
    pub fn take(&self, idxs: &Vec<usize>) -> (r: FieldColumn)
        requires
            self.wf(),
            forall|j: int| 0 <= j < idxs@.len() ==> idxs@[j] < self.len_s(),
        ensures
            r.wf(),
            r.kind() == self.kind(),
            r.len_s() == idxs@.len(),
            r.raw() == gather(self.raw(), usize_sel(idxs@)),
            r.valid() == gather(self.valid(), usize_sel(idxs@)),
    {
        match self {
            FieldColumn::Int(c) => FieldColumn::Int(c.take(idxs)),
            FieldColumn::Bool(c) => FieldColumn::Bool(c.take(idxs)),
            FieldColumn::Bytes(c) => FieldColumn::Bytes(c.take(idxs)),
        }
    }

    /// A copy of the rows `start..start + len` of one field.
    pub fn sliced(&self, start: usize, len: usize) -> (r: FieldColumn)
        requires
            self.wf(),
            start + len <= self.len_s(),
        ensures
            r.wf(),
            r.kind() == self.kind(),
            r.len_s() == len,
            r.raw() == self.raw().subrange(start as int, start + len),
            r.valid() == self.valid().subrange(start as int, start + len),
    {
        match self {
            FieldColumn::Int(c) => FieldColumn::Int(c.sliced(start, len, String::new())),
            FieldColumn::Bool(c) => FieldColumn::Bool(c.sliced(start, len, String::new())),
            FieldColumn::Bytes(c) => FieldColumn::Bytes(c.sliced(start, len, String::new())),
        }
    }
}

/// Multi-field structured column: a fixed tuple of named sub-columns, all of
/// the same length. Positions across every field stay aligned; a gather must
/// therefore be applied uniformly to all fields at once.
pub struct StructColumn {
    pub name: String,
    pub length: usize,
    pub field_names: Vec<String>,
    pub fields: Vec<FieldColumn>,
}

impl StructColumn {
    pub open spec fn wf(&self) -> bool {
        &&& self.field_names@.len() == self.fields@.len()
        &&& forall|f: int|
            0 <= f < self.fields@.len() ==> (#[trigger] self.fields@[f]).wf()
                && self.fields@[f].len_s() == self.length
    }

    pub open spec fn len_s(&self) -> nat {
        self.length as nat
    }

    pub open spec fn names_view(&self) -> Seq<Seq<char>> {
        Seq::new(self.field_names@.len(), |f: int| self.field_names@[f]@)
    }

    pub open spec fn kinds_view(&self) -> Seq<Kind> {
        Seq::new(self.fields@.len(), |f: int| self.fields@[f].kind())
    }

    /// One tuple per row, holding the row's sub-value of every field in
    /// field order.
    pub open spec fn raw(&self) -> Seq<SpecVal> {
        Seq::new(
            self.length as nat,
            |i: int|
                SpecVal::Tuple(Seq::new(self.fields@.len(), |f: int| self.fields@[f].raw()[i])),
        )
    }

    pub open spec fn valid(&self) -> Seq<bool> {
        all_true(self.length as nat)
    }

    pub open spec fn has_buf(&self) -> bool {
        false
    }

    /// Uniform bulk gather: every field is taken with the same index list,
    /// so corresponding positions across fields remain aligned.
    pub fn take(&self, idxs: &Vec<usize>) -> (r: StructColumn)
        requires
            self.wf(),
            forall|j: int| 0 <= j < idxs@.len() ==> idxs@[j] < self.len_s(),
        ensures
            r.wf(),
            r.name@ == self.name@,
            r.names_view() == self.names_view(),
            r.kinds_view() == self.kinds_view(),
            r.len_s() == idxs@.len(),
            r.raw() == gather(self.raw(), usize_sel(idxs@)),
            forall|f: int|
                0 <= f < self.fields@.len() ==> (#[trigger] r.fields@[f]).raw() == gather(
                    self.fields@[f].raw(),
                    usize_sel(idxs@),
                ) && r.fields@[f].valid() == gather(self.fields@[f].valid(), usize_sel(idxs@)),
    {
        let mut fields: Vec<FieldColumn> = Vec::new();
        let mut f: usize = 0;
        while f < self.fields.len()
            invariant
                self.wf(),
                forall|j: int| 0 <= j < idxs@.len() ==> idxs@[j] < self.len_s(),
                f <= self.fields@.len(),
                fields@.len() == f,
                forall|q: int|
                    0 <= q < f ==> (#[trigger] fields@[q]).wf() && fields@[q].kind()
                        == self.fields@[q].kind() && fields@[q].len_s() == idxs@.len()
                        && fields@[q].raw() == gather(self.fields@[q].raw(), usize_sel(idxs@))
                        && fields@[q].valid() == gather(self.fields@[q].valid(), usize_sel(idxs@)),
            decreases self.fields@.len() - f,
        {
            fields.push(self.fields[f].take(idxs));
            f += 1;
        }
        let r = StructColumn {
            name: self.name.clone(),
            length: idxs.len(),
            field_names: copy_strings(&self.field_names),
            fields,
        };
        proof {
            assert(r.names_view() =~= self.names_view());
            assert(r.kinds_view() =~= self.kinds_view());
            assert forall|j: int| 0 <= j < idxs@.len() implies r.raw()[j] == gather(
                self.raw(),
                usize_sel(idxs@),
            )[j] by {
                let inner_r = Seq::new(r.fields@.len(), |q: int| r.fields@[q].raw()[j]);
                let inner_s = Seq::new(
                    self.fields@.len(),
                    |q: int| self.fields@[q].raw()[idxs@[j] as int],
                );
                assert(inner_r =~= inner_s);
            }
            assert(r.raw() =~= gather(self.raw(), usize_sel(idxs@)));
        }
        r
    }

    /// A copy of the rows `start..start + len` of every field.
    pub fn sliced(&self, start: usize, len: usize, name: String) -> (r: StructColumn)
        requires
            self.wf(),
            start + len <= self.len_s(),
        ensures
            r.wf(),
            r.name@ == name@,
            r.names_view() == self.names_view(),
            r.kinds_view() == self.kinds_view(),
            r.len_s() == len,
            r.raw() == self.raw().subrange(start as int, start + len),
    {
        let mut fields: Vec<FieldColumn> = Vec::new();
        let mut f: usize = 0;
        while f < self.fields.len()
            invariant
                self.wf(),
                start + len <= self.len_s(),
                f <= self.fields@.len(),
                fields@.len() == f,
                forall|q: int|
                    0 <= q < f ==> (#[trigger] fields@[q]).wf() && fields@[q].kind()
                        == self.fields@[q].kind() && fields@[q].len_s() == len && fields@[q].raw()
                        == self.fields@[q].raw().subrange(start as int, start + len),
            decreases self.fields@.len() - f,
        {
            fields.push(self.fields[f].sliced(start, len));
            f += 1;
        }
        let r = StructColumn {
            name,
            length: len,
            field_names: copy_strings(&self.field_names),
            fields,
        };
        proof {
            assert(r.names_view() =~= self.names_view());
            assert(r.kinds_view() =~= self.kinds_view());
            assert forall|j: int| 0 <= j < len implies r.raw()[j] == self.raw().subrange(
                start as int,
                start + len,
            )[j] by {
                let inner_r = Seq::new(r.fields@.len(), |q: int| r.fields@[q].raw()[j]);
                let inner_s = Seq::new(
                    self.fields@.len(),
                    |q: int| self.fields@[q].raw()[start + j],
                );
                assert(inner_r =~= inner_s);
            }
            assert(r.raw() =~= self.raw().subrange(start as int, start + len));
        }
        r
    }
}

/// A column of any storage category, as the engine and the iterator see it.
pub enum Column {
    Int(IntColumn),
    Bool(BoolColumn),
    Bytes(BytesColumn),
    Null(NullColumn),
    Object(ObjectColumn),
    Struct(StructColumn),
}

impl Column {
    pub open spec fn wf(&self) -> bool {
        match self {
            Column::Int(c) => c.wf(),
            Column::Bool(c) => c.wf(),
            Column::Bytes(c) => c.wf(),
            Column::Null(c) => c.wf(),
            Column::Object(c) => c.wf(),
            Column::Struct(c) => c.wf(),
        }
    }

    pub open spec fn len_s(&self) -> nat {
        match self {
            Column::Int(c) => c.len_s(),
            Column::Bool(c) => c.len_s(),
            Column::Bytes(c) => c.len_s(),
            Column::Null(c) => c.len_s(),
            Column::Object(c) => c.len_s(),
            Column::Struct(c) => c.len_s(),
        }
    }

    pub open spec fn raw(&self) -> Seq<SpecVal> {
        match self {
            Column::Int(c) => c.raw(),
            Column::Bool(c) => c.raw(),
            Column::Bytes(c) => c.raw(),
            Column::Null(c) => c.raw(),
            Column::Object(c) => c.raw(),
            Column::Struct(c) => c.raw(),
        }
    }

    pub open spec fn valid(&self) -> Seq<bool> {
        match self {
            Column::Int(c) => c.valid(),
            Column::Bool(c) => c.valid(),
            Column::Bytes(c) => c.valid(),
            Column::Null(c) => c.valid(),
            Column::Object(c) => c.valid(),
            Column::Struct(c) => c.valid(),
        }
    }

    pub open spec fn has_buf(&self) -> bool {
        match self {
            Column::Int(c) => c.has_buf(),
            Column::Bool(c) => c.has_buf(),
            Column::Bytes(c) => c.has_buf(),
            Column::Null(c) => c.has_buf(),
            Column::Object(c) => c.has_buf(),
            Column::Struct(c) => c.has_buf(),
        }
    }

    pub open spec fn has_nulls(&self) -> bool {
        some_null(self.valid())
    }

    pub open spec fn kind(&self) -> Kind {
        match self {
            Column::Int(_) => Kind::Int,
            Column::Bool(_) => Kind::Bool,
            Column::Bytes(_) => Kind::Bytes,
            Column::Null(_) => Kind::Null,
            Column::Object(_) => Kind::Object,
            Column::Struct(c) => Kind::Struct(c.names_view(), c.kinds_view()),
        }
    }

    pub open spec fn name_s(&self) -> Seq<char> {
        match self {
            Column::Int(c) => c.name@,
            Column::Bool(c) => c.name@,
            Column::Bytes(c) => c.name@,
            Column::Null(c) => c.name@,
            Column::Object(c) => c.name@,
            Column::Struct(c) => c.name@,
        }
    }

    pub fn length(&self) -> (r: usize)
        ensures
            r == self.len_s(),
    {
        match self {
            Column::Int(c) => c.values.len(),
            Column::Bool(c) => c.values.len(),
            Column::Bytes(c) => c.values.len(),
            Column::Null(c) => c.len,
            Column::Object(c) => c.values.len(),
            Column::Struct(c) => c.length,
        }
    }

    pub fn get_name(&self) -> (r: String)
        ensures
            r@ == self.name_s(),
    {
        match self {
            Column::Int(c) => c.name.clone(),
            Column::Bool(c) => c.name.clone(),
            Column::Bytes(c) => c.name.clone(),
            Column::Null(c) => c.name.clone(),
            Column::Object(c) => c.name.clone(),
            Column::Struct(c) => c.name.clone(),
        }
    }

    /// A copy of the rows `start..start + len`, under the given name. The
    /// element kind is preserved; for a structured column every field is
    /// sliced in step.
    pub fn sliced(&self, start: usize, len: usize, name: String) -> (r: Column)
        requires
            self.wf(),
            start + len <= self.len_s(),
        ensures
            r.wf(),
            r.name_s() == name@,
            r.kind() == self.kind(),
            r.len_s() == len,
            r.raw() == self.raw().subrange(start as int, start + len),
            r.valid() == self.valid().subrange(start as int, start + len),
    {
        let r = match self {
            Column::Int(c) => Column::Int(c.sliced(start, len, name)),
            Column::Bool(c) => Column::Bool(c.sliced(start, len, name)),
            Column::Bytes(c) => Column::Bytes(c.sliced(start, len, name)),
            Column::Null(c) => Column::Null(NullColumn { name, len }),
            Column::Object(c) => Column::Object(c.sliced(start, len, name)),
            Column::Struct(c) => Column::Struct(c.sliced(start, len, name)),
        };
        proof {
            assert(r.raw() =~= self.raw().subrange(start as int, start + len));
            assert(r.valid() =~= self.valid().subrange(start as int, start + len));
        }
        r
    }
}

} // verus!
