//! From the laid out declaration to the syntax tree of a struct.

use vstd::prelude::*;
use crate::declaration::{AssembledStruct, PaddedStruct};
use crate::fields::StructField;
use crate::layout::{laid_out, offsets_increase, AssembledField, OffsetOrderError};
use crate::naming::{decimal, generate_padding_name, padding_name};
use crate::padding::{PaddingField, SizeExpr};
use crate::syntax::{
    array_type, byte_array_length, difference_expr, generic_call, ident_text, inherited_visibility,
    is_name_char, is_plain_identifier, item_struct, item_struct_tokens, literal_expr, new_colon,
    new_field_list, new_ident, punctuated_fields, punctuated_trailing, push_field, size_expr_read,
    struct_tokens, syn_field, visibility_inherited, written_field, written_struct,
};

verus! {

/// Every numeral is made of digits.
proof fn lemma_decimal_is_digits(n: nat)
    ensures
        decimal(n).len() > 0,
        forall|i: int| 0 <= i < decimal(n).len() ==> is_name_char(#[trigger] decimal(n)[i]),
    decreases n,
{
    if n >= 10 {
        lemma_decimal_is_digits(n / 10);
    }
}

/// The name of a padding field is an identifier.
pub proof fn lemma_padding_name_is_identifier(count: nat)
    ensures
        is_plain_identifier(padding_name(count)),
{
    reveal_strlit("_pad_struct_padding_array");
    lemma_decimal_is_digits(count);
}

impl SizeExpr {
    /// Writes the expression down, operators nested as in the expression:
    /// what is written reads as this expression again.
    pub fn into_expr(self) -> (expr: syn::Expr)
        ensures
            size_expr_read(expr) == self,
        decreases self,
    {
        match self {
            SizeExpr::Literal(value) => literal_expr(value),
            SizeExpr::SizeOf(ty) => {
                proof {
                    reveal_strlit("core");
                    reveal_strlit("mem");
                    reveal_strlit("size_of");
                }
                generic_call(new_ident("core"), new_ident("mem"), new_ident("size_of"), ty)
            },
            SizeExpr::Difference(left, right) => difference_expr((*left).into_expr(), (*right).into_expr()),
        }
    }
}

impl PaddingField {
    /// `field` is this padding written down: a private field without
    /// attributes, whose name is the one that belongs to the ordinal and
    /// whose type is an array of `u8` of this length.
    pub open spec fn written_as(self, field: syn::Field) -> bool {
        exists|parts: StructField|
            {
                &&& #[trigger] written_field(parts) == field
                &&& parts.attrs@.len() == 0
                &&& visibility_inherited(parts.vis)
                &&& parts.ident matches Some(ident) && ident_text(ident) == padding_name(self.index as nat)
                &&& parts.colon_token is Some
                &&& byte_array_length(parts.ty) == Some(self.length)
            }
    }

    /// The name of the field.
    pub fn name(&self) -> (name: String)
        ensures
            name@ == padding_name(self.index as nat),
    {
        generate_padding_name(self.index)
    }

    /// Writes the field down as `name: [u8; length]`, private and without
    /// attributes.
    pub fn into_field(self) -> (field: syn::Field)
        ensures
            self.written_as(field),
    {
        let name = self.name();
        proof {
            lemma_padding_name_is_identifier(self.index as nat);
            reveal_strlit("u8");
        }
        let ty = array_type(new_ident("u8"), self.length.into_expr());
        let parts = StructField {
            attrs: Vec::new(),
            vis: inherited_visibility(),
            ident: Some(new_ident(name.as_str())),
            colon_token: Some(new_colon()),
            ty,
        };
        syn_field(parts)
    }
}

impl AssembledField {
    /// `field` is this field written down: a declared field with its own
    /// attributes, visibility, name, colon and type, a padding field as
    /// [`PaddingField::written_as`] says.
    pub open spec fn written_as(self, field: syn::Field) -> bool {
        match self {
            AssembledField::Declared(declared) => field == written_field(declared),
            AssembledField::Padding(padding) => padding.written_as(field),
        }
    }

    /// Writes the field down.
    pub fn into_field(self) -> (field: syn::Field)
        ensures
            self.written_as(field),
    {
        match self {
            AssembledField::Declared(field) => syn_field(field),
            AssembledField::Padding(padding) => padding.into_field(),
        }
    }
}

impl AssembledStruct {
    /// `item` is this declaration written down: a struct with the same
    /// attributes, visibility, name and generics, whose named fields are
    /// the fields of the layout, each written down, in the same order and
    /// without a comma after the last.
    pub open spec fn written_as(self, item: syn::ItemStruct) -> bool {
        exists|fields: Seq<syn::Field>|
            {
                &&& #[trigger] written_struct(
                    self.attrs@,
                    self.vis,
                    self.struct_token,
                    self.ident,
                    self.generics,
                    self.brace,
                    fields,
                    false,
                    self.semi_token,
                ) == item
                &&& fields.len() == self.fields@.len()
                &&& forall|i: int| 0 <= i < fields.len() ==> self.fields@[i].written_as(#[trigger] fields[i])
            }
    }

    /// Writes the declaration down as a struct with named fields, one for
    /// each field of the layout and in the same order.
    pub fn into_item(self) -> (item: syn::ItemStruct)
        ensures
            self.written_as(item),
    {
        let mut named = new_field_list();
        let ghost layout = self.fields@;
        for field in it: self.fields
            invariant
                it.seq() == layout,
                !punctuated_trailing(named),
                punctuated_fields(named).len() == it.index(),
                forall|i: int|
                    0 <= i < it.index() ==> layout[i].written_as(#[trigger] punctuated_fields(named)[i]),
        {
            push_field(&mut named, field.into_field());
        }
        item_struct(
            self.attrs,
            self.vis,
            self.struct_token,
            self.ident,
            self.generics,
            self.brace,
            named,
            self.semi_token,
        )
    }
}

/// Why no struct was produced.
pub enum GenerationError {
    /// The input is no declaration: the error says which token was not
    /// expected, and where.
    Syntax(syn::Error),
    /// The declaration was read, but its offsets do not increase.
    OffsetOrder(OffsetOrderError),
}

/// `assembled` is the declaration laid out: the same outer shape around
/// the layout of its fields.
pub open spec fn assembles(declaration: PaddedStruct, assembled: AssembledStruct) -> bool {
    &&& assembled.fields@ == laid_out(declaration.entries())
    &&& assembled.attrs == declaration.attrs
    &&& assembled.vis == declaration.vis
    &&& assembled.struct_token == declaration.struct_token
    &&& assembled.ident == declaration.ident
    &&& assembled.generics == declaration.generics
    &&& assembled.brace == declaration.brace
    &&& assembled.semi_token == declaration.semi_token
}

/// `item` is the struct that the declaration becomes: the declaration laid
/// out and written down.
pub open spec fn generated(declaration: PaddedStruct, item: syn::ItemStruct) -> bool {
    exists|assembled: AssembledStruct| assembles(declaration, assembled) && #[trigger] assembled.written_as(item)
}

/// What becomes of what was read: the struct with its padding, or the
/// reason why there is none. Nothing is produced from a declaration whose
/// offsets are out of order.
pub fn generate(parsed: Result<PaddedStruct, syn::Error>) -> (result: Result<syn::ItemStruct, GenerationError>)
    ensures
        match parsed {
            Err(syntax) => result == Err::<syn::ItemStruct, GenerationError>(GenerationError::Syntax(syntax)),
            Ok(declaration) => {
                &&& result is Ok <==> offsets_increase(declaration.entries())
                &&& result matches Ok(item) ==> generated(declaration, item)
                &&& result matches Err(error) ==> error matches GenerationError::OffsetOrder(order)
                    && order.reports(declaration.entries())
            },
        },
{
    match parsed {
        Err(syntax) => Err(GenerationError::Syntax(syntax)),
        Ok(declaration) => match declaration.into_struct() {
            Ok(assembled) => {
                let ghost laid = assembled;
                let item = assembled.into_item();
                assert(assembles(declaration, laid) && laid.written_as(item));
                assert(generated(declaration, item));
                Ok(item)
            },
            Err(order) => Err(GenerationError::OffsetOrder(order)),
        },
    }
}

/// Expands a declaration that was read, or passes on why none was read:
/// the tokens of the struct with its padding, or the reason why there is
/// none. Nothing is produced from a declaration whose offsets are out of
/// order, and nothing from input that is no declaration.
pub fn pad_struct(parsed: Result<PaddedStruct, syn::Error>) -> (result: Result<
    proc_macro2::TokenStream,
    GenerationError,
>)
    ensures
        match parsed {
            Err(syntax) => result == Err::<proc_macro2::TokenStream, GenerationError>(
                GenerationError::Syntax(syntax),
            ),
            Ok(declaration) => {
                &&& result is Ok <==> offsets_increase(declaration.entries())
                &&& result matches Ok(tokens) ==> exists|item: syn::ItemStruct|
                    generated(declaration, item) && tokens == #[trigger] struct_tokens(item)
                &&& result matches Err(error) ==> error matches GenerationError::OffsetOrder(order)
                    && order.reports(declaration.entries())
            },
        },
{
    match generate(parsed) {
        Ok(item) => Ok(item_struct_tokens(&item)),
        Err(error) => Err(error),
    }
}

} // verus!
