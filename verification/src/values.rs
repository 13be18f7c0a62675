use vstd::prelude::*;

verus! {

/// Ghost model of a single column element, uniform across storage categories.
///
/// A column's physical buffer is modelled as a sequence of these values; the
/// validity bitmap is modelled separately, so an element that is null still
/// has a raw value here (the bytes that sit in the buffer under the cleared
/// validity bit).
pub enum SpecVal {
    /// Fixed-width primitive element.
    Int(int),
    /// Boolean element.
    Bool(bool),
    /// Variable-width element (text or raw bytes).
    Bytes(Seq<u8>),
    /// Opaque host-object element, identified by its handle.
    Obj(int),
    /// Element of an all-null column; it has no retrievable value.
    Nothing,
    /// Structured element: one sub-value per field, in field order.
    Tuple(Seq<SpecVal>),
}

/// Ghost model of a column's element type.
pub enum Kind {
    Int,
    Bool,
    Bytes,
    Null,
    Object,
    /// Field names and field kinds, aligned by position.
    Struct(Seq<Seq<char>>, Seq<Kind>),
}

/// The bulk "take": the sequence read from `s` at the positions in `idxs`,
/// in the order given.
pub open spec fn gather<A>(s: Seq<A>, idxs: Seq<int>) -> Seq<A> {
    Seq::new(idxs.len(), |j: int| s[idxs[j]])
}

/// The selection described by an index vector.
pub open spec fn usize_sel(v: Seq<usize>) -> Seq<int> {
    Seq::new(v.len(), |j: int| v[j] as int)
}

/// The identity selection over a column of `n` rows.
pub open spec fn identity_sel(n: nat) -> Seq<int> {
    Seq::new(n, |j: int| j)
}

/// Gathering along the identity selection reads the sequence back unchanged.
pub proof fn lemma_gather_identity<A>(s: Seq<A>)
    ensures
        gather(s, identity_sel(s.len())) == s,
{
    assert(gather(s, identity_sel(s.len())) =~= s);
}

/// A gather distributes over `subrange`: slicing the gathered sequence is the
/// same as gathering along the sliced selection.
pub proof fn lemma_gather_subrange<A>(s: Seq<A>, idxs: Seq<int>, a: int, b: int)
    requires
        0 <= a <= b <= idxs.len(),
    ensures
        gather(s, idxs).subrange(a, b) == gather(s, idxs.subrange(a, b)),
{
    assert(gather(s, idxs).subrange(a, b) =~= gather(s, idxs.subrange(a, b)));
}

} // verus!
