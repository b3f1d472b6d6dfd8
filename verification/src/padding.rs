//! Padding fields and the symbolic length of their byte arrays.

use vstd::prelude::*;
use crate::syntax::clone_type;

verus! {

/// An arithmetic expression over type sizes. It is never evaluated here: the
/// compiler of the resulting struct knows the sizes and folds it.
pub enum SizeExpr {
    /// A `usize` literal.
    Literal(usize),
    /// `core::mem::size_of::<T>()`.
    SizeOf(syn::Type),
    /// `left - right`.
    Difference(Box<SizeExpr>, Box<SizeExpr>),
}

impl SizeExpr {
    /// What the expression evaluates to when `size_of` gives the size of
    /// each type and no operation overflows.
    pub open spec fn value(self, size_of: spec_fn(syn::Type) -> nat) -> int
        decreases self,
    {
        match self {
            SizeExpr::Literal(n) => n as int,
            SizeExpr::SizeOf(ty) => size_of(ty) as int,
            SizeExpr::Difference(left, right) => left.value(size_of) - right.value(size_of),
        }
    }

    /// No subtraction in the expression goes below zero, so that unsigned
    /// arithmetic gives [`Self::value`].
    pub open spec fn evaluates(self, size_of: spec_fn(syn::Type) -> nat) -> bool
        decreases self,
    {
        match self {
            SizeExpr::Difference(left, right) => {
                &&& left.evaluates(size_of)
                &&& right.evaluates(size_of)
                &&& left.value(size_of) >= right.value(size_of)
            },
            _ => true,
        }
    }
}

/// The sizes of `types`, added up.
pub open spec fn total_size(types: Seq<syn::Type>, size_of: spec_fn(syn::Type) -> nat) -> int
    decreases types.len(),
{
    if types.len() == 0 {
        0
    } else {
        total_size(types.drop_last(), size_of) + size_of(types.last())
    }
}

/// The expression `offset - anchor - size_of(t1) - ... - size_of(tn)` for
/// `pending = [t1, ..., tn]`, nested to the left.
pub open spec fn padding_length(offset: usize, anchor: usize, pending: Seq<syn::Type>) -> SizeExpr
    decreases pending.len(),
{
    if pending.len() == 0 {
        SizeExpr::Difference(
            Box::new(SizeExpr::Literal(offset)),
            Box::new(SizeExpr::Literal(anchor)),
        )
    } else {
        SizeExpr::Difference(
            Box::new(padding_length(offset, anchor, pending.drop_last())),
            Box::new(SizeExpr::SizeOf(pending.last())),
        )
    }
}

/// The length of a padding array is the distance between the two offsets
/// less the sizes of the fields that already lie between them.
pub proof fn lemma_padding_length_value(
    offset: usize,
    anchor: usize,
    pending: Seq<syn::Type>,
    size_of: spec_fn(syn::Type) -> nat,
)
    ensures
        padding_length(offset, anchor, pending).value(size_of) == offset - anchor - total_size(
            pending,
            size_of,
        ),
    decreases pending.len(),
{
    reveal_with_fuel(SizeExpr::value, 2);
    if pending.len() > 0 {
        lemma_padding_length_value(offset, anchor, pending.drop_last(), size_of);
    }
}

/// A padding length that is not negative is computed without underflow:
/// the fields between two offsets either fit into the gap, or the compiler
/// of the resulting struct stops at the subtraction that they overrun.
pub proof fn lemma_padding_length_evaluates(
    offset: usize,
    anchor: usize,
    pending: Seq<syn::Type>,
    size_of: spec_fn(syn::Type) -> nat,
)
    ensures
        total_size(pending, size_of) >= 0,
        padding_length(offset, anchor, pending).evaluates(size_of) <==> padding_length(
            offset,
            anchor,
            pending,
        ).value(size_of) >= 0,
    decreases pending.len(),
{
    reveal_with_fuel(SizeExpr::value, 2);
    reveal_with_fuel(SizeExpr::evaluates, 2);
    lemma_padding_length_value(offset, anchor, pending, size_of);
    if pending.len() > 0 {
        lemma_padding_length_evaluates(offset, anchor, pending.drop_last(), size_of);
        lemma_padding_length_value(offset, anchor, pending.drop_last(), size_of);
    }
}

/// A synthesized field `name: [u8; length]`.
pub struct PaddingField {
    /// The ordinal of this padding field within its declaration.
    pub index: u64,
    /// The length of the byte array.
    pub length: SizeExpr,
}

/// Synthesizes the padding that brings a field to `offset`, when the last
/// fixed position is `last_offset` and fields of the types `prev_types` have
/// been placed since.
pub fn generate_padding(count: u64, offset: usize, last_offset: usize, prev_types: &Vec<syn::Type>) -> (padding: PaddingField)
    requires
        offset > last_offset,
    ensures
        padding.index == count,
        padding.length == padding_length(offset, last_offset, prev_types@),
{
    let mut pad_size = SizeExpr::Difference(
        Box::new(SizeExpr::Literal(offset)),
        Box::new(SizeExpr::Literal(last_offset)),
    );
    let mut i: usize = 0;
    while i < prev_types.len()
        invariant
            i <= prev_types.len(),
            pad_size == padding_length(offset, last_offset, prev_types@.take(i as int)),
        decreases prev_types.len() - i,
    {
        assert(prev_types@.take(i + 1).drop_last() =~= prev_types@.take(i as int));
        pad_size = SizeExpr::Difference(
            Box::new(pad_size),
            Box::new(SizeExpr::SizeOf(clone_type(&prev_types[i]))),
        );
        i += 1;
    }
    assert(prev_types@.take(i as int) =~= prev_types@);
    PaddingField { index: count, length: pad_size }
}

} // verus!
