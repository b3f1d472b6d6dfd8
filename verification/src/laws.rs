//! What holds of every layout that this crate produces.
//!
//! Sizes are given by an arbitrary function from types to natural numbers,
//! and a struct is laid out in declaration order without implicit padding:
//! a field sits where the fields before it end.

use vstd::prelude::*;
use crate::fields::{PaddedStructField, StructField};
use crate::layout::{
    anchor_of, annotated_count, laid_out, offsets_increase, out_of_order, padding_before, pending_of,
    AssembledField,
};
use crate::naming::{lemma_padding_names_differ, padding_name};
use crate::padding::{lemma_padding_length_value, total_size, PaddingField};

verus! {

/// The size of a field of the resulting struct.
pub open spec fn field_size(field: AssembledField, size_of: spec_fn(syn::Type) -> nat) -> int {
    match field {
        AssembledField::Declared(f) => size_of(f.ty) as int,
        AssembledField::Padding(p) => p.length.value(size_of),
    }
}

/// The sizes of `fields`, added up: the size of a struct that holds them.
pub open spec fn extent(fields: Seq<AssembledField>, size_of: spec_fn(syn::Type) -> nat) -> int
    decreases fields.len(),
{
    if fields.len() == 0 {
        0
    } else {
        extent(fields.drop_last(), size_of) + field_size(fields.last(), size_of)
    }
}

/// The offset of the field at index `k`: the size of the fields before it.
pub open spec fn offset_in(fields: Seq<AssembledField>, k: int, size_of: spec_fn(syn::Type) -> nat) -> int {
    extent(fields.take(k), size_of)
}

/// The index, in the resulting field list, of the field that entry `i`
/// declares.
pub open spec fn field_index(entries: Seq<PaddedStructField>, i: int) -> int {
    laid_out(entries.take(i + 1)).len() - 1
}

/// The length of every padding array of the layout can be computed: the
/// fields between two declared offsets are not larger than the gap.
pub open spec fn paddings_fit(entries: Seq<PaddedStructField>, size_of: spec_fn(syn::Type) -> nat) -> bool {
    forall|k: int|
        0 <= k < laid_out(entries).len() ==> (#[trigger] laid_out(entries)[k] matches AssembledField::Padding(p)
            ==> p.length.evaluates(size_of))
}

/// The declaration can be laid out and the result compiles: the declared
/// offsets increase, and the fields between two of them fit into the gap.
pub open spec fn valid_declaration(entries: Seq<PaddedStructField>, size_of: spec_fn(syn::Type) -> nat) -> bool {
    offsets_increase(entries) && paddings_fit(entries, size_of)
}

/// A layout ends where its checkpoint says: at the anchor plus the sizes of
/// the fields placed since.
pub proof fn lemma_extent_is_checkpoint(entries: Seq<PaddedStructField>, size_of: spec_fn(syn::Type) -> nat)
    ensures
        extent(laid_out(entries), size_of) == anchor_of(entries) + total_size(pending_of(entries), size_of),
    decreases entries.len(),
{
    if entries.len() > 0 {
        let before = entries.drop_last();
        lemma_extent_is_checkpoint(before, size_of);
        match entries.last() {
            PaddedStructField::NoPadding(f) => {
                let out = laid_out(before).push(AssembledField::Declared(f));
                assert(out.drop_last() =~= laid_out(before));
                assert(extent(out, size_of) == extent(laid_out(before), size_of) + size_of(f.ty));
                assert(pending_of(entries).drop_last() =~= pending_of(before));
                assert(total_size(pending_of(entries), size_of) == total_size(pending_of(before), size_of)
                    + size_of(f.ty));
            },
            PaddedStructField::WithPadding(p) => {
                let padding = padding_before(before, p);
                let padded = laid_out(before).push(AssembledField::Padding(padding));
                let out = padded.push(AssembledField::Declared(p.stripped()));
                assert(padded.drop_last() =~= laid_out(before));
                assert(out.drop_last() =~= padded);
                assert(extent(padded, size_of) == extent(laid_out(before), size_of) + padding.length.value(
                    size_of,
                ));
                assert(extent(out, size_of) == extent(padded, size_of) + size_of(p.ty));
                lemma_padding_length_value(p.offset, anchor_of(before), pending_of(before), size_of);
                assert(seq![p.ty].drop_last() =~= Seq::<syn::Type>::empty());
                assert(total_size(seq![p.ty], size_of) == size_of(p.ty)) by {
                    reveal_with_fuel(total_size, 2);
                }
            },
        }
    }
}

/// The layout of the first `i` entries is the beginning of the layout of
/// all of them.
pub proof fn lemma_layout_of_prefix(entries: Seq<PaddedStructField>, i: int)
    requires
        0 <= i <= entries.len(),
    ensures
        laid_out(entries.take(i)).len() <= laid_out(entries).len(),
        laid_out(entries).take(laid_out(entries.take(i)).len() as int) == laid_out(entries.take(i)),
    decreases entries.len() - i,
{
    if i == entries.len() {
        assert(entries.take(i) =~= entries);
        assert(laid_out(entries).take(laid_out(entries).len() as int) =~= laid_out(entries));
    } else {
        lemma_layout_of_prefix(entries, i + 1);
        let longer = entries.take(i + 1);
        assert(longer.drop_last() =~= entries.take(i));
        let n = laid_out(entries.take(i)).len() as int;
        assert(laid_out(longer).take(n) =~= laid_out(entries.take(i)));
        assert(laid_out(entries).take(n) =~= laid_out(entries).take(laid_out(longer).len() as int).take(n));
    }
}

/// Every field with an offset sits at its offset.
///
/// In the resulting field list, the sizes of the fields before a field that
/// was declared with an offset add up to that offset, whatever the sizes of
/// the types are.
pub proof fn lemma_declared_offset_is_met(entries: Seq<PaddedStructField>, size_of: spec_fn(syn::Type) -> nat, i: int)
    requires
        valid_declaration(entries, size_of),
        0 <= i < entries.len(),
        entries[i] is WithPadding,
    ensures
        0 <= field_index(entries, i) < laid_out(entries).len(),
        laid_out(entries)[field_index(entries, i)] == AssembledField::Declared(entries[i].field()),
        offset_in(laid_out(entries), field_index(entries, i), size_of) == entries[i]->WithPadding_0.offset,
{
    let upto = entries.take(i + 1);
    let before = entries.take(i);
    assert(upto.drop_last() =~= before);
    assert(upto.last() == entries[i]);
    let p = entries[i]->WithPadding_0;
    let padded = laid_out(before).push(AssembledField::Padding(padding_before(before, p)));
    let out = padded.push(AssembledField::Declared(p.stripped()));
    assert(laid_out(upto) == out);
    lemma_layout_of_prefix(entries, i + 1);
    let k = field_index(entries, i);
    assert(laid_out(entries).take(k + 1) == out);
    assert(laid_out(entries)[k] == out[k]);
    assert(laid_out(entries).take(k) =~= out.take(k));
    assert(out.take(k) =~= padded);
    assert(padded.drop_last() =~= laid_out(before));
    lemma_extent_is_checkpoint(before, size_of);
    lemma_padding_length_value(p.offset, anchor_of(before), pending_of(before), size_of);
}

/// A field without an offset follows the fields before it: it sits at the
/// last declared offset plus the sizes of the fields placed since.
pub proof fn lemma_plain_field_follows(entries: Seq<PaddedStructField>, size_of: spec_fn(syn::Type) -> nat, i: int)
    requires
        valid_declaration(entries, size_of),
        0 <= i < entries.len(),
        entries[i] is NoPadding,
    ensures
        0 <= field_index(entries, i) < laid_out(entries).len(),
        laid_out(entries)[field_index(entries, i)] == AssembledField::Declared(entries[i].field()),
        offset_in(laid_out(entries), field_index(entries, i), size_of) == anchor_of(entries.take(i)) + total_size(
            pending_of(entries.take(i)),
            size_of,
        ),
{
    let upto = entries.take(i + 1);
    let before = entries.take(i);
    assert(upto.drop_last() =~= before);
    assert(upto.last() == entries[i]);
    let f = entries[i]->NoPadding_0;
    let out = laid_out(before).push(AssembledField::Declared(f));
    assert(laid_out(upto) == out);
    lemma_layout_of_prefix(entries, i + 1);
    let k = field_index(entries, i);
    assert(laid_out(entries).take(k + 1) == out);
    assert(laid_out(entries)[k] == out[k]);
    assert(laid_out(entries).take(k) =~= out.take(k));
    assert(out.take(k) =~= laid_out(before));
    lemma_extent_is_checkpoint(before, size_of);
}

/// While the offsets increase, the anchor is at least every offset declared
/// so far.
pub proof fn lemma_anchor_bounds_offsets(entries: Seq<PaddedStructField>, i: int)
    requires
        offsets_increase(entries),
        0 <= i < entries.len(),
        entries[i] is WithPadding,
    ensures
        entries[i]->WithPadding_0.offset <= anchor_of(entries),
    decreases entries.len(),
{
    let before = entries.drop_last();
    if i < entries.len() - 1 {
        assert forall|j: int| 0 <= j < before.len() implies !out_of_order(before, j) by {
            assert(!out_of_order(entries, j));
            assert(before.take(j) =~= entries.take(j));
        }
        lemma_anchor_bounds_offsets(before, i);
        assert(before[i] == entries[i]);
        let last = entries.len() - 1;
        assert(!out_of_order(entries, last));
        assert(entries.take(last) =~= before);
    }
}

/// The struct ends right after its last field when that field declares an
/// offset: its size is that offset, which is the greatest one declared,
/// plus the size of the field's type.
pub proof fn lemma_size_after_last_offset(entries: Seq<PaddedStructField>, size_of: spec_fn(syn::Type) -> nat)
    requires
        valid_declaration(entries, size_of),
        entries.len() > 0,
        entries.last() is WithPadding,
    ensures
        extent(laid_out(entries), size_of) == entries.last()->WithPadding_0.offset + size_of(entries.last().ty()),
        forall|i: int|
            0 <= i < entries.len() && entries[i] is WithPadding ==> (#[trigger] entries[i])->WithPadding_0.offset
                <= entries.last()->WithPadding_0.offset,
{
    lemma_extent_is_checkpoint(entries, size_of);
    let p = entries.last()->WithPadding_0;
    assert(seq![p.ty].drop_last() =~= Seq::<syn::Type>::empty());
    assert(total_size(seq![p.ty], size_of) == size_of(p.ty)) by {
        reveal_with_fuel(total_size, 2);
    }
    assert forall|i: int| 0 <= i < entries.len() && entries[i] is WithPadding implies (#[trigger] entries[i])->WithPadding_0.offset
        <= entries.last()->WithPadding_0.offset by {
        lemma_anchor_bounds_offsets(entries, i);
    }
}

/// Offsets that do not increase are refused, whatever the types are: when
/// an entry declares an offset that is not greater than one declared
/// earlier, the field list has an entry that is out of order.
pub proof fn lemma_repeated_or_decreasing_offset_is_refused(entries: Seq<PaddedStructField>, i: int, j: int)
    requires
        0 <= i < j < entries.len(),
        entries[i] is WithPadding,
        entries[j] is WithPadding,
        entries[j]->WithPadding_0.offset <= entries[i]->WithPadding_0.offset,
    ensures
        !offsets_increase(entries),
{
    if offsets_increase(entries) {
        let before = entries.take(j);
        assert forall|k: int| 0 <= k < before.len() implies !out_of_order(before, k) by {
            assert(!out_of_order(entries, k));
            assert(before.take(k) =~= entries.take(k));
        }
        assert(before[i] == entries[i]);
        lemma_anchor_bounds_offsets(before, i);
        assert(!out_of_order(entries, j));
    }
}

/// The anchor is zero or one of the declared offsets.
pub proof fn lemma_anchor_is_declared(entries: Seq<PaddedStructField>)
    ensures
        anchor_of(entries) == 0 || exists|i: int|
            0 <= i < entries.len() && (#[trigger] entries[i] matches PaddedStructField::WithPadding(p)
                && p.offset == anchor_of(entries)),
    decreases entries.len(),
{
    if entries.len() > 0 {
        let before = entries.drop_last();
        let last = entries.len() - 1;
        match entries.last() {
            PaddedStructField::WithPadding(p) => {
                assert(entries[last] matches PaddedStructField::WithPadding(q) && q.offset == anchor_of(entries));
            },
            PaddedStructField::NoPadding(_) => {
                lemma_anchor_is_declared(before);
                if anchor_of(before) != 0 {
                    let i = choose|i: int|
                        0 <= i < before.len() && (#[trigger] before[i] matches PaddedStructField::WithPadding(p)
                            && p.offset == anchor_of(before));
                    assert(entries[i] == before[i]);
                }
            },
        }
    }
}

/// Offsets that increase are accepted, whatever the types are: a field
/// list is in order when every declared offset is positive and greater than
/// the offsets declared before it.
pub proof fn lemma_increasing_offsets_are_accepted(entries: Seq<PaddedStructField>)
    requires
        forall|i: int|
            0 <= i < entries.len() ==> (#[trigger] entries[i] matches PaddedStructField::WithPadding(p) ==> p.offset
                > 0),
        forall|i: int, j: int|
            0 <= i < j < entries.len() ==> (#[trigger] entries[i] matches PaddedStructField::WithPadding(p)
                ==> (#[trigger] entries[j] matches PaddedStructField::WithPadding(q) ==> p.offset < q.offset)),
    ensures
        offsets_increase(entries),
{
    assert forall|j: int| 0 <= j < entries.len() implies !out_of_order(entries, j) by {
        if entries[j] is WithPadding {
            let before = entries.take(j);
            lemma_anchor_is_declared(before);
            if anchor_of(before) != 0 {
                let i = choose|i: int|
                    0 <= i < before.len() && (#[trigger] before[i] matches PaddedStructField::WithPadding(p)
                        && p.offset == anchor_of(before));
                assert(entries[i] == before[i]);
            }
        }
    }
}

/// A declaration without offsets is kept as it is: every field list of
/// plain fields is in order, and its layout is the same fields in the same
/// order, with no padding.
pub proof fn lemma_plain_fields_are_kept(entries: Seq<PaddedStructField>)
    requires
        forall|i: int| 0 <= i < entries.len() ==> entries[i] is NoPadding,
    ensures
        offsets_increase(entries),
        laid_out(entries).len() == entries.len(),
        forall|i: int|
            0 <= i < entries.len() ==> laid_out(entries)[i] == AssembledField::Declared(entries[i]->NoPadding_0),
    decreases entries.len(),
{
    if entries.len() > 0 {
        let before = entries.drop_last();
        assert forall|i: int| 0 <= i < before.len() implies before[i] is NoPadding by {
            assert(before[i] == entries[i]);
        }
        lemma_plain_fields_are_kept(before);
    }
}

/// Padding fields are numbered from zero in the order in which they stand:
/// each has a smaller ordinal than those after it, and all ordinals are
/// below the number of entries that declare an offset.
pub proof fn lemma_padding_ordinals_ascend(entries: Seq<PaddedStructField>)
    requires
        annotated_count(entries) <= u64::MAX,
    ensures
        forall|k: int|
            0 <= k < laid_out(entries).len() ==> (#[trigger] laid_out(entries)[k] matches AssembledField::Padding(p)
                ==> p.index < annotated_count(entries)),
        forall|j: int, k: int|
            0 <= j < k < laid_out(entries).len() ==> (#[trigger] laid_out(entries)[j] matches AssembledField::Padding(p)
                ==> (#[trigger] laid_out(entries)[k] matches AssembledField::Padding(q) ==> p.index < q.index)),
    decreases entries.len(),
{
    if entries.len() > 0 {
        let before = entries.drop_last();
        lemma_padding_ordinals_ascend(before);
    }
}

/// No two padding fields of a layout have the same name.
pub proof fn lemma_padding_names_are_unique(entries: Seq<PaddedStructField>, j: int, k: int)
    requires
        annotated_count(entries) <= u64::MAX,
        0 <= j < k < laid_out(entries).len(),
        laid_out(entries)[j] is Padding,
        laid_out(entries)[k] is Padding,
    ensures
        padding_name(laid_out(entries)[j]->Padding_0.index as nat) != padding_name(
            laid_out(entries)[k]->Padding_0.index as nat,
        ),
{
    lemma_padding_ordinals_ascend(entries);
    lemma_padding_names_differ(
        laid_out(entries)[j]->Padding_0.index as nat,
        laid_out(entries)[k]->Padding_0.index as nat,
    );
}

/// How a field of a resulting struct reads as a plain field, when `written`
/// says how a padding field is written down.
pub open spec fn read_back(field: AssembledField, written: spec_fn(PaddingField) -> StructField) -> StructField {
    match field {
        AssembledField::Declared(f) => f,
        AssembledField::Padding(p) => written(p),
    }
}

/// Laying out a layout changes nothing: when the fields of a resulting
/// struct are given again, all of them as fields without an offset, the
/// result is those fields in that order.
pub proof fn lemma_layout_is_idempotent(
    fields: Seq<AssembledField>,
    written: spec_fn(PaddingField) -> StructField,
    again: Seq<PaddedStructField>,
)
    requires
        again.len() == fields.len(),
        forall|i: int|
            0 <= i < fields.len() ==> again[i] == PaddedStructField::NoPadding(read_back(fields[i], written)),
    ensures
        offsets_increase(again),
        laid_out(again).len() == fields.len(),
        forall|i: int|
            0 <= i < fields.len() ==> laid_out(again)[i] == AssembledField::Declared(read_back(fields[i], written)),
{
    lemma_plain_fields_are_kept(again);
}

} // verus!
