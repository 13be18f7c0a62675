use vstd::prelude::*;
use crate::column::Column;

verus! {

/// In a nondecreasing offsets sequence, any earlier entry bounds any later
/// one.
pub proof fn lemma_adjacent_monotone(s: Seq<usize>, i: int, j: int)
    requires
        forall|k: int| 0 <= k < s.len() - 1 ==> #[trigger] s[k] <= s[k + 1],
        0 <= i <= j < s.len(),
    ensures
        s[i] <= s[j],
    decreases j - i,
{
    if i < j {
        lemma_adjacent_monotone(s, i, j - 1);
    }
}

/// List-typed column: the aggregation's output. Row `i` is the list of child
/// elements at positions `offsets[i] .. offsets[i + 1]`; the optional
/// validity marks a whole list row as null, distinct from its elements being
/// null.
pub struct ListColumn {
    pub name: String,
    pub offsets: Vec<usize>,
    pub values: Column,
    pub validity: Option<Vec<bool>>,
    /// Cached invariant: true only if no list row is empty, which lets the
    /// inverse explode transform skip its zero-length branch.
    pub fast_explode: bool,
}

impl ListColumn {
    pub open spec fn num_lists(&self) -> nat {
        (self.offsets@.len() - 1) as nat
    }

    pub open spec fn wf(&self) -> bool {
        &&& self.offsets@.len() >= 1
        &&& self.offsets@[0] == 0
        &&& forall|i: int|
            0 <= i < self.num_lists() ==> #[trigger] self.offsets@[i] <= self.offsets@[i + 1]
        &&& self.offsets@[self.offsets@.len() - 1] == self.values.len_s()
        &&& match self.validity {
            Some(v) => v@.len() == self.num_lists(),
            None => true,
        }
        &&& self.values.wf()
        &&& self.fast_explode ==> forall|i: int|
            0 <= i < self.num_lists() ==> #[trigger] self.offsets@[i] < self.offsets@[i + 1]
    }

    /// Length of list row `i`.
    pub open spec fn list_len(&self, i: int) -> int {
        self.offsets@[i + 1] - self.offsets@[i]
    }

    /// Whether list row `i` is present (a null list row is distinct from an
    /// empty one).
    pub open spec fn list_valid(&self, i: int) -> bool {
        match self.validity {
            Some(v) => v@[i],
            None => true,
        }
    }

    /// The child elements of list row `i`.
    pub open spec fn list_raw(&self, i: int) -> Seq<crate::values::SpecVal> {
        self.values.raw().subrange(self.offsets@[i] as int, self.offsets@[i + 1] as int)
    }

    /// Builds a list column from finished parts, deriving the fast-explode
    /// flag from the offsets: it is set exactly when no two consecutive
    /// offsets coincide, i.e. when no list row is empty.
    pub fn from_parts(
        name: String,
        offsets: Vec<usize>,
        values: Column,
        validity: Option<Vec<bool>>,
    ) -> (r: ListColumn)
        requires
            offsets@.len() >= 1,
            offsets@[0] == 0,
            forall|i: int| 0 <= i < offsets@.len() - 1 ==> #[trigger] offsets@[i] <= offsets@[i + 1],
            offsets@[offsets@.len() - 1] == values.len_s(),
            match validity {
                Some(v) => v@.len() == offsets@.len() - 1,
                None => true,
            },
            values.wf(),
        ensures
            r.wf(),
            r.name@ == name@,
            r.offsets@ == offsets@,
            r.values == values,
            r.validity == validity,
            r.fast_explode == (forall|i: int|
                0 <= i < offsets@.len() - 1 ==> #[trigger] offsets@[i] < offsets@[i + 1]),
    {
        let n = offsets.len();
        let mut fast_explode = true;
        let mut i: usize = 0;
        while i + 1 < n
            invariant
                n == offsets@.len(),
                offsets@.len() >= 1,
                i <= offsets@.len() - 1,
                forall|k: int| 0 <= k < offsets@.len() - 1 ==> #[trigger] offsets@[k] <= offsets@[k
                    + 1],
                fast_explode == (forall|k: int|
                    0 <= k < i ==> #[trigger] offsets@[k] < offsets@[k + 1]),
            decreases offsets@.len() - i,
        {
            if offsets[i] == offsets[i + 1] {
                fast_explode = false;
            }
            i += 1;
        }
        ListColumn { name, offsets, values, validity, fast_explode }
    }

    /// The sub-column view of list row `i`: `None` exactly when the row is a
    /// null list. The returned view carries the given name.
    pub fn group_view(&self, i: usize, name: String) -> (r: Option<Column>)
        requires
            self.wf(),
            i < self.num_lists(),
        ensures
            r is Some <==> self.list_valid(i as int),
            match r {
                Some(c) => {
                    &&& c.wf()
                    &&& c.name_s() == name@
                    &&& c.kind() == self.values.kind()
                    &&& c.len_s() == self.list_len(i as int)
                    &&& c.raw() == self.list_raw(i as int)
                    &&& c.valid() == self.values.valid().subrange(
                        self.offsets@[i as int] as int,
                        self.offsets@[i as int + 1] as int,
                    )
                },
                None => true,
            },
    {
        let present = match &self.validity {
            Some(v) => v[i],
            None => true,
        };
        if present {
            let n = self.offsets.len();
            let a = self.offsets[i];
            let b = self.offsets[i + 1];
            proof {
                lemma_adjacent_monotone(self.offsets@, i as int, i as int + 1);
                lemma_adjacent_monotone(self.offsets@, i as int + 1, self.offsets@.len() - 1);
            }
            Some(self.values.sliced(a, b - a, name))
        } else {
            None
        }
    }
}

} // verus!
