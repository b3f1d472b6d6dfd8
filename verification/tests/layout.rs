use pad_struct::{
    generate, generate_padding, generate_padding_name, lay_out, pad_struct, AssembledField,
    AssembledStruct, FieldWithPadding, GenerationError, OffsetOrderError, PaddedStruct,
    PaddedStructField, SizeExpr, StructField,
};
use quote::ToTokens;
use syn::ext::IdentExt;
use syn::parse::{ParseStream, Parser};
use syn::punctuated::Punctuated;

fn read_field_with_padding(input: ParseStream) -> syn::Result<FieldWithPadding> {
    let offset: syn::LitInt = input.parse()?;
    let equal_sign = input.parse()?;
    let right_arrow = input.parse()?;
    let vis = input.parse()?;
    let ident = if input.peek(syn::token::Underscore) {
        syn::Ident::parse_any(input)
    } else {
        input.parse()
    }?;
    let colon_token = input.parse()?;
    let ty = input.parse()?;
    let offset = offset.base10_parse::<usize>()?;
    Ok(FieldWithPadding::from_parts(offset, equal_sign, right_arrow, vis, ident, colon_token, ty))
}

fn read_entry(input: ParseStream) -> syn::Result<PaddedStructField> {
    let attrs = syn::Attribute::parse_outer(input)?;
    let read = if input.peek(syn::LitInt) {
        PaddedStructField::WithPadding(read_field_with_padding(input)?)
    } else {
        let syn::Field { attrs, vis, ident, colon_token, ty } = syn::Field::parse_named(input)?;
        PaddedStructField::NoPadding(StructField { attrs, vis, ident, colon_token, ty })
    };
    Ok(read.with_attrs(attrs))
}

fn read_entries(input: ParseStream) -> syn::Result<Punctuated<PaddedStructField, syn::token::Comma>> {
    Punctuated::parse_terminated_with(input, read_entry)
}

/// Reads a declaration as the macro does.
fn read_declaration(input: ParseStream) -> syn::Result<PaddedStruct> {
    let attrs = syn::Attribute::parse_outer(input)?;
    let vis = input.parse()?;
    let struct_token = input.parse()?;
    let ident = input.parse()?;
    let generics = input.parse()?;
    let group: proc_macro2::Group = input.parse()?;
    if group.delimiter() != proc_macro2::Delimiter::Brace {
        return Err(syn::Error::new(group.span(), "expected curly braces"));
    }
    let brace = syn::token::Brace { span: group.span() };
    let fields = read_entries.parse2(group.stream())?;
    let semi_token = input.parse()?;
    Ok(PaddedStruct::from_parts(attrs, vis, struct_token, ident, generics, brace, fields, semi_token))
}

fn declaration(source: &str) -> PaddedStruct {
    match read_declaration.parse_str(source) {
        Ok(parsed) => parsed,
        Err(error) => panic!("{}", error),
    }
}

/// The tokens that `syn` writes for the struct that `source` declares.
fn item(source: &str) -> String {
    let item: syn::ItemStruct = syn::parse_str(source).unwrap();
    item.to_token_stream().to_string()
}

fn expanded(source: &str) -> String {
    match pad_struct(Ok(declaration(source))) {
        Ok(out) => out.to_string(),
        Err(_) => panic!("the declaration was not expanded"),
    }
}

fn assembled(source: &str) -> AssembledStruct {
    match declaration(source).into_struct() {
        Ok(assembled) => assembled,
        Err(error) => panic!("offset {} at entry {} is out of order", error.offset, error.position),
    }
}

fn refused(source: &str) -> OffsetOrderError {
    match declaration(source).into_struct() {
        Ok(_) => panic!("the declaration was laid out"),
        Err(error) => error,
    }
}

fn written(ty: &syn::Type) -> String {
    ty.to_token_stream().to_string()
}

fn size_of(ty: &syn::Type) -> i128 {
    match written(ty).as_str() {
        "u8" => 1,
        "u16" => 2,
        "u32" => 4,
        "u64" => 8,
        "SizedStruct" => 16,
        other => panic!("no size for {}", other),
    }
}

fn value(expr: &SizeExpr) -> i128 {
    match expr {
        SizeExpr::Literal(n) => *n as i128,
        SizeExpr::SizeOf(ty) => size_of(ty),
        SizeExpr::Difference(left, right) => value(left) - value(right),
    }
}

fn name(field: &AssembledField) -> String {
    match field {
        AssembledField::Declared(f) => f.ident.as_ref().unwrap().to_string(),
        AssembledField::Padding(p) => p.name(),
    }
}

/// The name, offset and size of every field when the fields follow each
/// other without gaps.
fn sequential(fields: &[AssembledField]) -> Vec<(String, i128, i128)> {
    let mut at = 0;
    let mut placed = Vec::new();
    for field in fields {
        let size = match field {
            AssembledField::Declared(f) => size_of(&f.ty),
            AssembledField::Padding(p) => value(&p.length),
        };
        assert!(size >= 0);
        placed.push((name(field), at, size));
        at += size;
    }
    placed
}

fn offset_of(placed: &[(String, i128, i128)], field: &str) -> i128 {
    placed.iter().find(|(name, _, _)| name == field).unwrap().1
}

fn total(placed: &[(String, i128, i128)]) -> i128 {
    placed.iter().map(|(_, _, size)| *size).sum()
}

fn ty(source: &str) -> syn::Type {
    syn::parse_str(source).unwrap()
}

fn plain(name: &str, type_source: &str) -> PaddedStructField {
    PaddedStructField::NoPadding(StructField {
        attrs: Vec::new(),
        vis: syn::Visibility::Inherited,
        ident: Some(syn::Ident::new(name, proc_macro2::Span::call_site())),
        colon_token: Some(Default::default()),
        ty: ty(type_source),
    })
}

fn at(offset: usize, name: &str, type_source: &str) -> PaddedStructField {
    PaddedStructField::WithPadding(FieldWithPadding {
        attrs: Vec::new(),
        offset,
        equal_sign: Default::default(),
        right_arrow: Default::default(),
        vis: syn::Visibility::Inherited,
        ident: Some(syn::Ident::new(name, proc_macro2::Span::call_site())),
        colon_token: Some(Default::default()),
        ty: ty(type_source),
    })
}

const FIVE_FIELDS: &str = "
    #[repr(C)]
    #[derive(Debug)]
    struct Padded {
        0x100 => field: u32,
        between: u32,
        0xc00 => another: SizedStruct,
        after_struct: u8,
        0xfff => end: u8,
    }";

#[test]
fn fields_sit_at_their_declared_offsets() {
    let laid = assembled(FIVE_FIELDS);
    let placed = sequential(&laid.fields);
    assert_eq!(offset_of(&placed, "field"), 0x100);
    assert_eq!(offset_of(&placed, "between"), 0x104);
    assert_eq!(offset_of(&placed, "another"), 0xc00);
    assert_eq!(offset_of(&placed, "after_struct"), 0xc10);
    assert_eq!(offset_of(&placed, "end"), 0xfff);
    assert_eq!(total(&placed), 0x1000);
}

#[test]
fn fields_and_padding_alternate_in_order() {
    let laid = assembled(FIVE_FIELDS);
    let names: Vec<String> = laid.fields.iter().map(name).collect();
    assert_eq!(
        names,
        vec![
            "_pad_struct_padding_array0",
            "field",
            "between",
            "_pad_struct_padding_array1",
            "another",
            "after_struct",
            "_pad_struct_padding_array2",
            "end",
        ]
    );
}

#[test]
fn padding_lengths_are_the_gaps() {
    let laid = assembled(FIVE_FIELDS);
    let placed = sequential(&laid.fields);
    assert_eq!(placed[0], ("_pad_struct_padding_array0".to_string(), 0, 0x100));
    assert_eq!(placed[3], ("_pad_struct_padding_array1".to_string(), 0x108, 0xc00 - 0x108));
    assert_eq!(placed[6], ("_pad_struct_padding_array2".to_string(), 0xc11, 0xfff - 0xc11));
}

#[test]
fn leading_plain_field_is_padded_up_to_the_first_offset() {
    let laid = assembled("struct Padded { root: u8, 0x100 => field: u32 }");
    let placed = sequential(&laid.fields);
    assert_eq!(laid.fields.len(), 3);
    assert_eq!(offset_of(&placed, "root"), 0);
    assert_eq!(placed[1], ("_pad_struct_padding_array0".to_string(), 1, 0xff));
    assert_eq!(offset_of(&placed, "field"), 0x100);
}

#[test]
fn leading_plain_field_with_all_six_fields() {
    let laid = assembled(
        "#[repr(C)] struct Padded {
            root: u8,
            0x100 => field: u32,
            between: u32,
            0xc00 => another: SizedStruct,
            after_struct: u8,
            0xfff => end: u8,
        }",
    );
    let placed = sequential(&laid.fields);
    assert_eq!(offset_of(&placed, "root"), 0x0);
    assert_eq!(offset_of(&placed, "field"), 0x100);
    assert_eq!(offset_of(&placed, "between"), 0x104);
    assert_eq!(offset_of(&placed, "another"), 0xc00);
    assert_eq!(offset_of(&placed, "end"), 0xfff);
    assert_eq!(total(&placed), 0xfff + 1);
}

#[test]
fn single_field_with_offset_gets_one_leading_padding() {
    let laid = assembled("struct Padded { 0x100 => field: u32 }");
    assert_eq!(laid.fields.len(), 2);
    match &laid.fields[0] {
        AssembledField::Padding(padding) => {
            assert_eq!(padding.index, 0);
            assert_eq!(value(&padding.length), 0x100);
            match &padding.length {
                SizeExpr::Difference(left, right) => {
                    assert!(matches!(**left, SizeExpr::Literal(0x100)));
                    assert!(matches!(**right, SizeExpr::Literal(0)));
                }
                _ => panic!("the length is no difference"),
            }
        }
        AssembledField::Declared(_) => panic!("the first field is no padding"),
    }
    assert_eq!(name(&laid.fields[1]), "field");
    let placed = sequential(&laid.fields);
    assert_eq!(offset_of(&placed, "field"), 0x100);
    assert_eq!(total(&placed), 0x104);
}

#[test]
fn size_ends_after_the_last_declared_offset() {
    let laid = assembled("struct S { a: u16, 8 => b: u64, c: u8, 0x40 => d: u32 }");
    let placed = sequential(&laid.fields);
    assert_eq!(total(&placed), 0x40 + 4);
}

#[test]
fn equal_offsets_are_refused() {
    let error = refused("struct S { 0x10 => a: u8, 0x10 => b: u8 }");
    assert_eq!(error.position, 1);
    assert_eq!(error.offset, 0x10);
    assert_eq!(error.last_offset, 0x10);
}

#[test]
fn decreasing_offsets_are_refused() {
    let error = refused("struct S { 0x20 => a: u64, between: SizedStruct, 0x10 => b: u8, 0x30 => c: u8 }");
    assert_eq!(error.position, 2);
    assert_eq!(error.offset, 0x10);
    assert_eq!(error.last_offset, 0x20);
}

#[test]
fn refusal_does_not_depend_on_the_types() {
    for first in ["u8", "u64", "SizedStruct", "[u8; 0]", "Unknown<T>"] {
        for second in ["u8", "&'static str", "()"] {
            let source = format!("struct S {{ 8 => a: {}, 4 => b: {} }}", first, second);
            let error = refused(&source);
            assert_eq!((error.position, error.offset, error.last_offset), (1, 4, 8));
        }
    }
}

#[test]
fn offset_zero_is_refused() {
    let error = refused("struct S { 0 => a: u8 }");
    assert_eq!((error.position, error.offset, error.last_offset), (0, 0, 0));
}

#[test]
fn first_offence_is_reported() {
    let error = refused("struct S { 4 => a: u8, 2 => b: u8, 1 => c: u8 }");
    assert_eq!((error.position, error.offset, error.last_offset), (1, 2, 4));
}

#[test]
fn declaration_without_offsets_is_kept() {
    let source = "#[repr(C)] pub struct Plain<T> { pub a: u8, #[allow(dead_code)] b: T, c: [u32; 4] }";
    let parsed = declaration(source);
    let laid = match parsed.into_struct() {
        Ok(laid) => laid,
        Err(_) => panic!("a declaration without offsets was refused"),
    };
    assert_eq!(laid.fields.len(), 3);
    let names: Vec<String> = laid.fields.iter().map(name).collect();
    assert_eq!(names, vec!["a", "b", "c"]);
    for field in &laid.fields {
        assert!(matches!(field, AssembledField::Declared(_)));
    }
    let expected: syn::ItemStruct = syn::parse_str(source).unwrap();
    assert_eq!(
        laid.into_item().to_token_stream().to_string(),
        expected.to_token_stream().to_string()
    );
}

#[test]
fn empty_declaration_is_kept() {
    let laid = assembled("struct Empty {}");
    assert!(laid.fields.is_empty());
    assert_eq!(laid.into_item().to_token_stream().to_string(), "struct Empty { }");
}

#[test]
fn lay_out_takes_entries_built_by_hand() {
    let entries = vec![plain("root", "u8"), at(0x100, "field", "u32"), plain("tail", "u16")];
    let fields = match lay_out(entries) {
        Ok(fields) => fields,
        Err(_) => panic!("increasing offsets were refused"),
    };
    let placed = sequential(&fields);
    assert_eq!(
        placed,
        vec![
            ("root".to_string(), 0, 1),
            ("_pad_struct_padding_array0".to_string(), 1, 0xff),
            ("field".to_string(), 0x100, 4),
            ("tail".to_string(), 0x104, 2),
        ]
    );
}

#[test]
fn lay_out_refuses_entries_built_by_hand() {
    let entries = vec![at(8, "a", "u8"), plain("b", "u8"), at(8, "c", "u8")];
    match lay_out(entries) {
        Ok(_) => panic!("a repeated offset was laid out"),
        Err(error) => assert_eq!((error.position, error.offset, error.last_offset), (2, 8, 8)),
    }
}

#[test]
fn lay_out_accepts_the_greatest_offset() {
    let entries = vec![at(usize::MAX, "last", "u8")];
    let fields = match lay_out(entries) {
        Ok(fields) => fields,
        Err(_) => panic!("the greatest offset was refused"),
    };
    match &fields[0] {
        AssembledField::Padding(padding) => assert_eq!(value(&padding.length), usize::MAX as i128),
        AssembledField::Declared(_) => panic!("the first field is no padding"),
    }
}

#[test]
fn padding_subtracts_pending_types_in_their_order() {
    let types = vec![ty("u32"), ty("SizedStruct"), ty("u8")];
    let padding = generate_padding(7, 0x200, 0x100, &types);
    assert_eq!(padding.index, 7);
    assert_eq!(padding.name(), "_pad_struct_padding_array7");
    assert_eq!(value(&padding.length), 0x100 - 4 - 16 - 1);
    let mut subtracted = Vec::new();
    let mut expr = &padding.length;
    loop {
        match expr {
            SizeExpr::Difference(left, right) => match &**right {
                SizeExpr::SizeOf(ty) => {
                    subtracted.push(written(ty));
                    expr = left;
                }
                SizeExpr::Literal(anchor) => {
                    assert_eq!(*anchor, 0x100);
                    assert!(matches!(**left, SizeExpr::Literal(0x200)));
                    break;
                }
                SizeExpr::Difference(_, _) => panic!("the expression nests to the right"),
            },
            _ => panic!("the expression is no chain of differences"),
        }
    }
    assert_eq!(subtracted, vec!["u8", "SizedStruct", "u32"]);
}

#[test]
fn padding_field_is_written_as_a_byte_array() {
    let types = vec![ty("u32"), ty("Vec<u8>")];
    let field = generate_padding(3, 3072, 256, &types).into_field();
    let expected: syn::FieldsNamed = syn::parse_str(
        "{ _pad_struct_padding_array3: [u8; 3072usize - 256usize
            - core::mem::size_of::<u32>() - core::mem::size_of::<Vec<u8>>()] }",
    )
    .unwrap();
    assert_eq!(field.to_token_stream().to_string(), expected.named.to_token_stream().to_string());
    assert!(matches!(field.vis, syn::Visibility::Inherited));
    assert!(field.attrs.is_empty());
}

#[test]
fn padding_names() {
    assert_eq!(generate_padding_name(0), "_pad_struct_padding_array0");
    assert_eq!(generate_padding_name(9), "_pad_struct_padding_array9");
    assert_eq!(generate_padding_name(10), "_pad_struct_padding_array10");
    assert_eq!(generate_padding_name(1234567890), "_pad_struct_padding_array1234567890");
    assert_eq!(
        generate_padding_name(u64::MAX),
        "_pad_struct_padding_array18446744073709551615"
    );
}

#[test]
fn into_field_keeps_everything_but_the_offset() {
    let parsed = declaration("struct S { #[doc = \"first\"] #[cfg(all())] 0x10 => pub(crate) a: Option<u8> }");
    let entry = parsed.fields.into_iter().next().unwrap();
    let annotated = match entry {
        PaddedStructField::WithPadding(field) => field,
        PaddedStructField::NoPadding(_) => panic!("the entry has no offset"),
    };
    assert_eq!(annotated.offset, 0x10);
    let field = annotated.into_field();
    assert_eq!(field.attrs.len(), 2);
    assert_eq!(field.attrs[0].to_token_stream().to_string(), "# [doc = \"first\"]");
    assert_eq!(field.vis.to_token_stream().to_string(), "pub (crate)");
    assert_eq!(field.ident.unwrap().to_string(), "a");
    assert!(field.colon_token.is_some());
    assert_eq!(written(&field.ty), "Option < u8 >");
}

#[test]
fn field_without_a_name_takes_its_space() {
    let unnamed = PaddedStructField::NoPadding(StructField {
        attrs: Vec::new(),
        vis: syn::Visibility::Inherited,
        ident: None,
        colon_token: None,
        ty: ty("u64"),
    });
    let fields = match lay_out(vec![unnamed, at(0x20, "next", "u8")]) {
        Ok(fields) => fields,
        Err(_) => panic!("one offset was refused"),
    };
    assert_eq!(fields.len(), 3);
    match &fields[0] {
        AssembledField::Declared(field) => assert!(field.ident.is_none()),
        AssembledField::Padding(_) => panic!("the first field is padding"),
    }
    match &fields[1] {
        AssembledField::Padding(padding) => assert_eq!(value(&padding.length), 0x20 - 8),
        AssembledField::Declared(_) => panic!("the second field is no padding"),
    }
}

#[test]
fn order_error_has_a_message() {
    let error = refused("struct S { 2 => a: u8, 1 => b: u8 }");
    assert_eq!(error.message(), "Requested offset is less than current field position");
    assert_eq!(error, OffsetOrderError { position: 1, offset: 1, last_offset: 2 });
}

#[test]
fn insufficient_gap_is_left_to_the_compiler() {
    let laid = assembled("struct S { 2 => a: u64, 4 => b: u8 }");
    match &laid.fields[2] {
        AssembledField::Padding(padding) => assert_eq!(value(&padding.length), 4 - 2 - 8),
        AssembledField::Declared(_) => panic!("the third field is no padding"),
    }
}

#[test]
fn from_parts_puts_each_part_in_its_place() {
    let field = FieldWithPadding::from_parts(
        0x20,
        Default::default(),
        Default::default(),
        syn::parse_str("pub(crate)").unwrap(),
        syn::Ident::new("value", proc_macro2::Span::call_site()),
        Default::default(),
        ty("[u8; 4]"),
    );
    assert!(field.attrs.is_empty());
    assert_eq!(field.offset, 0x20);
    assert_eq!(field.vis.to_token_stream().to_string(), "pub (crate)");
    assert_eq!(field.ident.unwrap().to_string(), "value");
    assert!(field.colon_token.is_some());
    assert_eq!(written(&field.ty), "[u8 ; 4]");
}

#[test]
fn with_attrs_replaces_the_attributes_of_either_kind() {
    let attrs = syn::Attribute::parse_outer.parse_str("#[a] #[b]").unwrap();
    match at(4, "x", "u8").with_attrs(attrs) {
        PaddedStructField::WithPadding(field) => {
            assert_eq!(field.attrs.len(), 2);
            assert_eq!(field.attrs[1].to_token_stream().to_string(), "# [b]");
            assert_eq!(field.offset, 4);
            assert_eq!(field.ident.unwrap().to_string(), "x");
        }
        PaddedStructField::NoPadding(_) => panic!("the kind changed"),
    }
    let attrs = syn::Attribute::parse_outer.parse_str("#[a]").unwrap();
    match plain("x", "u8").with_attrs(attrs) {
        PaddedStructField::NoPadding(field) => {
            assert_eq!(field.attrs.len(), 1);
            assert_eq!(field.attrs[0].to_token_stream().to_string(), "# [a]");
            assert_eq!(written(&field.ty), "u8");
        }
        PaddedStructField::WithPadding(_) => panic!("the kind changed"),
    }
}

#[test]
fn declaration_from_parts_keeps_its_parts() {
    let outer: syn::ItemStruct = syn::parse_str("#[repr(C)] #[derive(Debug)] pub(crate) struct Regs<'a, T: Copy> {}").unwrap();
    let brace = match outer.fields {
        syn::Fields::Named(named) => named.brace_token,
        _ => panic!("no braces"),
    };
    let mut fields = Punctuated::new();
    fields.push(at(4, "status", "&'a T"));
    let parsed = PaddedStruct::from_parts(
        outer.attrs,
        outer.vis,
        outer.struct_token,
        outer.ident,
        outer.generics,
        brace,
        fields,
        None,
    );
    assert_eq!(parsed.attrs.len(), 2);
    assert_eq!(parsed.ident.to_string(), "Regs");
    assert_eq!(parsed.generics.params.len(), 2);
    assert_eq!(parsed.fields.len(), 1);
    assert!(parsed.semi_token.is_none());
    let laid = match parsed.into_struct() {
        Ok(laid) => laid,
        Err(_) => panic!("one offset was refused"),
    };
    assert_eq!(laid.attrs.len(), 2);
    assert_eq!(laid.vis.to_token_stream().to_string(), "pub (crate)");
    assert_eq!(laid.ident.to_string(), "Regs");
    assert_eq!(laid.generics.params.len(), 2);
    assert!(laid.semi_token.is_none());
    assert_eq!(
        laid.into_item().to_token_stream().to_string(),
        item("#[repr(C)] #[derive(Debug)] pub(crate) struct Regs<'a, T: Copy> {
            _pad_struct_padding_array0: [u8; 4usize - 0usize], status: &'a T }")
    );
}

#[test]
fn underscore_names_a_field() {
    let out = expanded("struct S { 0x10 => _: u32 }");
    assert_eq!(out, item("struct S { _pad_struct_padding_array0: [u8; 16usize - 0usize], _: u32 }"));
}

#[test]
fn no_comma_follows_the_last_field() {
    let with = expanded("struct S { a: u8, 4 => b: u8, }");
    let without = expanded("struct S { a: u8, 4 => b: u8 }");
    assert_eq!(with, without);
    assert_eq!(with, item("struct S { a: u8, _pad_struct_padding_array0: [u8; 4usize - 0usize - core::mem::size_of::<u8>()], b: u8 }"));
}

#[test]
fn expansion_of_the_five_fields() {
    let out = expanded(FIVE_FIELDS);
    let expected = item(
        "#[repr(C)]
        #[derive(Debug)]
        struct Padded {
            _pad_struct_padding_array0: [u8; 256usize - 0usize],
            field: u32,
            between: u32,
            _pad_struct_padding_array1: [u8; 3072usize - 256usize
                - core::mem::size_of::<u32>() - core::mem::size_of::<u32>()],
            another: SizedStruct,
            after_struct: u8,
            _pad_struct_padding_array2: [u8; 4095usize - 3072usize
                - core::mem::size_of::<SizedStruct>() - core::mem::size_of::<u8>()],
            end: u8
        }",
    );
    assert_eq!(out, expected);
}

#[test]
fn expansion_keeps_field_attributes_and_visibility() {
    let out = expanded("pub struct S<T> { #[doc = \"x\"] 8 => pub a: T, #[cfg(test)] pub(crate) b: u8 }");
    let expected = item(
        "pub struct S<T> {
            _pad_struct_padding_array0: [u8; 8usize - 0usize],
            #[doc = \"x\"] pub a: T,
            #[cfg(test)] pub(crate) b: u8
        }",
    );
    assert_eq!(out, expected);
}

#[test]
fn expansion_is_a_struct_that_syn_reads() {
    let out = expanded("struct S { a: u8, 0x10 => b: u64, 0x20 => c: u8 }");
    let item: syn::ItemStruct = syn::parse_str(&out).unwrap();
    assert_eq!(item.fields.len(), 5);
}

#[test]
fn expanding_twice_changes_nothing() {
    let once = expanded(
        "#[repr(C)] pub struct Padded { root: u8, 0x100 => pub field: u32, between: u32, 0xc00 => end: u8 }",
    );
    let twice = expanded(&once);
    assert_eq!(once, twice);
    let again = declaration(&once);
    assert!(again.fields.iter().all(|entry| matches!(entry, PaddedStructField::NoPadding(_))));
}

#[test]
fn offsets_out_of_order_stop_the_expansion() {
    match pad_struct(Ok(declaration("struct S { 0x10 => a: u8, 0x8 => b: u8 }"))) {
        Err(GenerationError::OffsetOrder(error)) => {
            assert_eq!(error, OffsetOrderError { position: 1, offset: 8, last_offset: 0x10 })
        }
        _ => panic!("decreasing offsets were expanded"),
    }
    match pad_struct(Ok(declaration("struct S { 0x10 => a: u8, 0x10 => b: u8 }"))) {
        Err(GenerationError::OffsetOrder(error)) => {
            assert_eq!(error, OffsetOrderError { position: 1, offset: 0x10, last_offset: 0x10 })
        }
        _ => panic!("equal offsets were expanded"),
    }
}

#[test]
fn syntax_error_is_passed_on() {
    let error = syn::Error::new(proc_macro2::Span::call_site(), "no declaration");
    match pad_struct(Err(error)) {
        Err(GenerationError::Syntax(error)) => assert_eq!(error.to_string(), "no declaration"),
        _ => panic!("the syntax error was lost"),
    }
    match pad_struct(read_declaration.parse_str("struct S { 0x10 a: u8 }")) {
        Err(GenerationError::Syntax(error)) => assert_eq!(error.to_string(), "expected `=`"),
        _ => panic!("the syntax error was lost"),
    }
}

#[test]
fn generation_fails_on_syntax_and_on_order() {
    match generate(read_declaration.parse_str("struct S { 0x10 => a }")) {
        Err(GenerationError::Syntax(error)) => assert_eq!(error.to_string(), "expected `:`"),
        _ => panic!("no syntax error came back"),
    }
    match generate(Ok(declaration("struct S { 0x10 => a: u8, b: u8, 0x10 => c: u8 }"))) {
        Err(GenerationError::OffsetOrder(order)) => {
            assert_eq!(order, OffsetOrderError { position: 2, offset: 0x10, last_offset: 0x10 })
        }
        _ => panic!("no offset error came back"),
    }
    match generate(Ok(declaration("struct S { 0x10 => a: u8, b: u8, 0x20 => c: u8 }"))) {
        Ok(item) => assert_eq!(item.fields.len(), 5),
        Err(_) => panic!("increasing offsets were refused"),
    }
}
