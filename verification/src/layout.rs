//! From a field list with offsets to a field list with padding.
//!
//! The list is walked once. A checkpoint keeps the last declared offset (the
//! anchor, zero at the start) and the types of the fields placed since. A
//! field with an offset gets a padding field before it, whose length is the
//! distance from the anchor less the sizes of those types, and then becomes
//! the new anchor.

use vstd::prelude::*;
use crate::fields::{FieldWithPadding, PaddedStructField, StructField};
use crate::padding::{generate_padding, padding_length, PaddingField};
use crate::syntax::clone_type;

verus! {

/// The anchor after `entries`: the offset of the last entry that declares
/// one, or zero.
pub open spec fn anchor_of(entries: Seq<PaddedStructField>) -> usize
    decreases entries.len(),
{
    if entries.len() == 0 {
        0
    } else {
        match entries.last() {
            PaddedStructField::WithPadding(p) => p.offset,
            PaddedStructField::NoPadding(_) => anchor_of(entries.drop_last()),
        }
    }
}

/// The types of the fields placed since the anchor of `entries`, the
/// anchoring field's own type first.
pub open spec fn pending_of(entries: Seq<PaddedStructField>) -> Seq<syn::Type>
    decreases entries.len(),
{
    if entries.len() == 0 {
        Seq::empty()
    } else {
        match entries.last() {
            PaddedStructField::WithPadding(p) => seq![p.ty],
            PaddedStructField::NoPadding(f) => pending_of(entries.drop_last()).push(f.ty),
        }
    }
}

/// How many of `entries` declare an offset.
pub open spec fn annotated_count(entries: Seq<PaddedStructField>) -> nat
    decreases entries.len(),
{
    if entries.len() == 0 {
        0
    } else {
        match entries.last() {
            PaddedStructField::WithPadding(_) => annotated_count(entries.drop_last()) + 1,
            PaddedStructField::NoPadding(_) => annotated_count(entries.drop_last()),
        }
    }
}

/// Entry `i` declares an offset that does not lie beyond the anchor before it.
pub open spec fn out_of_order(entries: Seq<PaddedStructField>, i: int) -> bool {
    entries[i] matches PaddedStructField::WithPadding(p) && p.offset <= anchor_of(entries.take(i))
}

/// The declared offsets are positive and strictly increasing.
pub open spec fn offsets_increase(entries: Seq<PaddedStructField>) -> bool {
    forall|i: int| 0 <= i < entries.len() ==> !out_of_order(entries, i)
}

/// A field of the resulting struct.
pub enum AssembledField {
    /// A field of the declaration, without its offset if it had one.
    Declared(StructField),
    /// A byte array that fills the gap before a field with an offset.
    Padding(PaddingField),
}

/// The padding field that goes before the entry `p` when it follows `before`.
pub open spec fn padding_before(before: Seq<PaddedStructField>, p: FieldWithPadding) -> PaddingField {
    PaddingField {
        index: annotated_count(before) as u64,
        length: padding_length(p.offset, anchor_of(before), pending_of(before)),
    }
}

/// The field list of the resulting struct: the fields of `entries` in their
/// order, each field with an offset preceded by its padding.
pub open spec fn laid_out(entries: Seq<PaddedStructField>) -> Seq<AssembledField>
    decreases entries.len(),
{
    if entries.len() == 0 {
        Seq::empty()
    } else {
        let before = entries.drop_last();
        match entries.last() {
            PaddedStructField::NoPadding(f) => laid_out(before).push(AssembledField::Declared(f)),
            PaddedStructField::WithPadding(p) => laid_out(before).push(
                AssembledField::Padding(padding_before(before, p)),
            ).push(AssembledField::Declared(p.stripped())),
        }
    }
}

/// An entry declares an offset that is not greater than the one declared
/// before it (or is zero, if it is the first to declare one).
#[derive(Debug, Clone, Copy, PartialEq, Eq)]
pub struct OffsetOrderError {
    /// The index of the offending entry in the field list.
    pub position: usize,
    /// The offset that the entry declares.
    pub offset: usize,
    /// The offset that it had to exceed.
    pub last_offset: usize,
}

impl OffsetOrderError {
    /// What to tell the author of the declaration.
    pub fn message(&self) -> (text: &'static str)
        ensures
            text@ == "Requested offset is less than current field position"@,
    {
        "Requested offset is less than current field position"
    }

    /// This error reports the first entry of `entries` that is out of order.
    pub open spec fn reports(self, entries: Seq<PaddedStructField>) -> bool {
        &&& 0 <= self.position < entries.len()
        &&& out_of_order(entries, self.position as int)
        &&& forall|j: int| 0 <= j < self.position ==> !out_of_order(entries, j)
        &&& entries[self.position as int] matches PaddedStructField::WithPadding(p)
            && p.offset == self.offset
        &&& self.last_offset == anchor_of(entries.take(self.position as int))
    }
}

/// Lays out `entries`, or reports the first offset that is out of order.
pub fn lay_out(entries: Vec<PaddedStructField>) -> (result: Result<Vec<AssembledField>, OffsetOrderError>)
    ensures
        result is Ok <==> offsets_increase(entries@),
        match result {
            Ok(fields) => fields@ == laid_out(entries@),
            Err(error) => error.reports(entries@),
        },
{
    let ghost all = entries@;
    assert(all.len() == entries.len());
    let mut fields: Vec<AssembledField> = Vec::new();
    let mut pad_field_types: Vec<syn::Type> = Vec::new();
    let mut pad_last_offset: usize = 0;
    let mut pad_count: u64 = 0;
    let mut position: usize = 0;

    for entry in it: entries
        invariant
            it.seq() == all,
            all.len() <= usize::MAX,
            position == it.index(),
            forall|j: int| 0 <= j < position ==> !out_of_order(all, j),
            fields@ == laid_out(all.take(position as int)),
            pad_field_types@ == pending_of(all.take(position as int)),
            pad_last_offset == anchor_of(all.take(position as int)),
            pad_count == annotated_count(all.take(position as int)),
            pad_count <= position,
    {
        proof {
            let next = all.take(position + 1);
            assert(next.drop_last() =~= all.take(position as int));
            assert(next.last() == entry);
        }
        match entry {
            PaddedStructField::NoPadding(f) => {
                pad_field_types.push(clone_type(&f.ty));
                fields.push(AssembledField::Declared(f));
            },
            PaddedStructField::WithPadding(p) => {
                if p.offset <= pad_last_offset {
                    assert(out_of_order(all, position as int));
                    return Err(
                        OffsetOrderError {
                            position,
                            offset: p.offset,
                            last_offset: pad_last_offset,
                        },
                    );
                }
                let padding = generate_padding(pad_count, p.offset, pad_last_offset, &pad_field_types);
                fields.push(AssembledField::Padding(padding));
                pad_count += 1;
                pad_field_types.clear();
                pad_field_types.push(clone_type(&p.ty));
                pad_last_offset = p.offset;
                fields.push(AssembledField::Declared(p.into_field()));
            },
        }
        position += 1;
    }
    assert(all.take(position as int) =~= all);
    Ok(fields)
}

} // verus!
