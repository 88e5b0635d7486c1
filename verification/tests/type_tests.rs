use move_ts::error::GenError;
use move_ts::idl::{
    IDLAbility, IDLField, IDLPackage, IDLStruct, IDLStructType, IDLType, IDLTypeParam, StructId,
};
use move_ts::idl_type::{
    array_element, form_needs_serializer, generate_field_with_type_args,
    generate_idl_type_with_type_args, generate_struct_with_type_args, serialize_arg,
    serialize_mapped,
};
use move_ts::{Codegen, CodegenContext};

fn field(name: &str, ty: IDLType) -> IDLField {
    IDLField { name: name.to_string(), doc: None, ty }
}

fn plain_struct(module: &str, name: &str, params: Vec<IDLTypeParam>, fields: Vec<IDLField>) -> IDLStruct {
    IDLStruct {
        name: StructId::new("0x1", module, name),
        doc: None,
        type_params: params,
        fields,
        abilities: vec![IDLAbility::Store],
    }
}

fn package_of(structs: Vec<IDLStruct>) -> IDLPackage {
    IDLPackage {
        name: "Pkg".to_string(),
        modules: Vec::new(),
        dependencies: Vec::new(),
        structs,
        errors_json: "{}".to_string(),
    }
}

fn reference(module: &str, name: &str, ty_args: Vec<IDLType>) -> IDLType {
    IDLType::Struct(IDLStructType { name: StructId::new("0x1", module, name), ty_args })
}

fn vector(inner: IDLType) -> IDLType {
    IDLType::Vector(Box::new(inner))
}

fn typed(ty: &IDLType, pkg: &IDLPackage) -> Result<String, GenError> {
    generate_idl_type_with_type_args(ty, &CodegenContext::new(pkg), &Vec::new(), true)
}

fn loose(ty: &IDLType, pkg: &IDLPackage) -> Result<String, GenError> {
    generate_idl_type_with_type_args(ty, &CodegenContext::new(pkg), &Vec::new(), false)
}

#[test]
fn primitives_have_fixed_exact_forms() {
    let pkg = package_of(Vec::new());
    assert_eq!(typed(&IDLType::Bool, &pkg).unwrap(), "boolean");
    assert_eq!(typed(&IDLType::U8, &pkg).unwrap(), "number");
    assert_eq!(typed(&IDLType::U64, &pkg).unwrap(), "p.U64");
    assert_eq!(typed(&IDLType::U128, &pkg).unwrap(), "p.U128");
    assert_eq!(typed(&IDLType::Address, &pkg).unwrap(), "p.RawAddress");
    assert_eq!(typed(&IDLType::Signer, &pkg).unwrap(), "p.RawSigner");
}

#[test]
fn primitives_collapse_in_loose_forms() {
    let pkg = package_of(Vec::new());
    assert_eq!(loose(&IDLType::Bool, &pkg).unwrap(), "boolean");
    assert_eq!(loose(&IDLType::U8, &pkg).unwrap(), "number");
    assert_eq!(loose(&IDLType::U64, &pkg).unwrap(), "string");
    assert_eq!(loose(&IDLType::U128, &pkg).unwrap(), "string");
    assert_eq!(loose(&IDLType::Address, &pkg).unwrap(), "string");
    assert_eq!(loose(&IDLType::Signer, &pkg).unwrap(), "string");
}

#[test]
fn codegen_of_a_type_is_its_exact_form() {
    let pkg = package_of(Vec::new());
    let ctx = CodegenContext::new(&pkg);
    assert_eq!(IDLType::U64.generate_typescript(&ctx).unwrap(), "p.U64");
    assert_eq!(ctx.generate(&IDLType::Address).unwrap().to_string(), "p.RawAddress");
}

#[test]
fn byte_vectors_are_byte_strings_at_any_depth() {
    let pkg = package_of(Vec::new());
    assert_eq!(typed(&vector(IDLType::U8), &pkg).unwrap(), "p.ByteString");
    assert_eq!(loose(&vector(IDLType::U8), &pkg).unwrap(), "string");
    assert_eq!(
        typed(&vector(vector(IDLType::U8)), &pkg).unwrap(),
        "ReadonlyArray<p.ByteString>"
    );
    assert_eq!(
        typed(&vector(vector(vector(IDLType::U8))), &pkg).unwrap(),
        "ReadonlyArray<ReadonlyArray<p.ByteString>>"
    );
    assert_eq!(loose(&vector(vector(IDLType::U8)), &pkg).unwrap(), "ReadonlyArray<string>");
}

#[test]
fn vectors_are_read_only_arrays() {
    let pkg = package_of(Vec::new());
    assert_eq!(typed(&vector(IDLType::U64), &pkg).unwrap(), "ReadonlyArray<p.U64>");
    assert_eq!(loose(&vector(IDLType::U64), &pkg).unwrap(), "ReadonlyArray<string>");
    assert_eq!(typed(&vector(IDLType::Bool), &pkg).unwrap(), "ReadonlyArray<boolean>");
}

#[test]
fn type_parameters_take_the_scope_or_unknown() {
    let pkg = package_of(Vec::new());
    let ctx = CodegenContext::new(&pkg);
    let scope = vec!["_T".to_string(), "_U".to_string()];
    assert_eq!(
        generate_idl_type_with_type_args(&IDLType::TypeParam(1), &ctx, &scope, true).unwrap(),
        "_U"
    );
    assert_eq!(
        generate_idl_type_with_type_args(&IDLType::TypeParam(2), &ctx, &scope, true).unwrap(),
        "unknown"
    );
    assert_eq!(typed(&IDLType::TypeParam(0), &pkg).unwrap(), "unknown");
    assert_eq!(
        generate_idl_type_with_type_args(&vector(IDLType::TypeParam(0)), &ctx, &scope, false)
            .unwrap(),
        "ReadonlyArray<_T>"
    );
}

#[test]
fn tuples_are_not_supported() {
    let pkg = package_of(Vec::new());
    assert_eq!(typed(&IDLType::Tuple(vec![IDLType::U8]), &pkg), Err(GenError::UnsupportedType));
    assert_eq!(
        loose(&vector(IDLType::Tuple(Vec::new())), &pkg),
        Err(GenError::UnsupportedType)
    );
}

#[test]
fn the_standard_string_is_a_string() {
    let pkg = package_of(Vec::new());
    assert_eq!(typed(&reference("ASCII", "String", Vec::new()), &pkg).unwrap(), "string");
    assert_eq!(loose(&reference("ASCII", "String", Vec::new()), &pkg).unwrap(), "string");
}

#[test]
fn unknown_structs_are_unresolved() {
    let pkg = package_of(vec![plain_struct("Coin", "Balance", Vec::new(), Vec::new())]);
    assert_eq!(
        typed(&reference("Coin", "Missing", Vec::new()), &pkg),
        Err(GenError::UnresolvedStructReference)
    );
    assert_eq!(
        typed(&reference("Other", "Balance", Vec::new()), &pkg),
        Err(GenError::UnresolvedStructReference)
    );
}

#[test]
fn structs_expand_to_their_fields() {
    let pkg = package_of(vec![plain_struct(
        "Coin",
        "Balance",
        Vec::new(),
        vec![field("value", IDLType::U64), field("frozen", IDLType::Bool)],
    )]);
    assert_eq!(
        typed(&reference("Coin", "Balance", Vec::new()), &pkg).unwrap(),
        "{\n  value: p.U64;\n  frozen: boolean;\n}"
    );
    assert_eq!(
        loose(&reference("Coin", "Balance", Vec::new()), &pkg).unwrap(),
        "{\n  value: string;\n  frozen: boolean;\n}"
    );
}

#[test]
fn struct_type_arguments_fill_the_type_parameters() {
    let wrapper = plain_struct(
        "Box",
        "Box",
        vec![IDLTypeParam { name: "T".to_string(), is_phantom: false }],
        vec![field("inner", IDLType::TypeParam(0)), field("more", vector(IDLType::TypeParam(0)))],
    );
    let holder = plain_struct(
        "Box",
        "Holder",
        Vec::new(),
        vec![field("boxed", reference("Box", "Box", vec![IDLType::U128]))],
    );
    let pkg = package_of(vec![wrapper, holder]);
    assert_eq!(
        typed(&reference("Box", "Box", vec![IDLType::Address]), &pkg).unwrap(),
        "{\n  inner: p.RawAddress;\n  more: ReadonlyArray<p.RawAddress>;\n}"
    );
    assert_eq!(
        typed(&reference("Box", "Holder", Vec::new()), &pkg).unwrap(),
        "{\n  boxed: {\n    inner: p.U128;\n    more: ReadonlyArray<p.U128>;\n  };\n}"
    );
    assert_eq!(
        typed(&reference("Box", "Box", vec![IDLType::Tuple(Vec::new())]), &pkg),
        Err(GenError::UnsupportedType)
    );
}

#[test]
fn documented_fields_carry_their_comment() {
    let mut documented = field("value", IDLType::U64);
    documented.doc = Some("The amount.".to_string());
    let pkg = package_of(vec![plain_struct(
        "Coin",
        "Balance",
        Vec::new(),
        vec![field("id", IDLType::U8), documented],
    )]);
    assert_eq!(
        typed(&reference("Coin", "Balance", Vec::new()), &pkg).unwrap(),
        "{\n  id: number;\n\n  /** The amount. */\n  value: p.U64;\n}"
    );
}

#[test]
fn field_and_struct_entries() {
    let pkg = package_of(vec![plain_struct(
        "Coin",
        "Balance",
        Vec::new(),
        vec![field("value", IDLType::TypeParam(0))],
    )]);
    let ctx = CodegenContext::new(&pkg);
    let scope = vec!["X".to_string()];
    assert_eq!(
        generate_field_with_type_args(&field("value", IDLType::U64), &ctx, &scope, false).unwrap(),
        "value: string;"
    );
    let st = IDLStructType { name: StructId::new("0x1", "Coin", "Balance"), ty_args: Vec::new() };
    assert_eq!(
        generate_struct_with_type_args(&st, &ctx, &scope, true).unwrap(),
        "{\n  value: X;\n}"
    );
}

#[test]
fn a_struct_that_holds_itself_is_refused() {
    let list = plain_struct(
        "List",
        "Node",
        Vec::new(),
        vec![field("next", reference("List", "Node", Vec::new()))],
    );
    let pkg = package_of(vec![list]);
    assert_eq!(
        typed(&reference("List", "Node", Vec::new()), &pkg),
        Err(GenError::RecursiveStructReference)
    );
}

#[test]
fn a_chain_of_structs_as_long_as_the_table_expands() {
    let a = plain_struct("M", "A", Vec::new(), vec![field("b", reference("M", "B", Vec::new()))]);
    let b = plain_struct("M", "B", Vec::new(), vec![field("c", reference("M", "C", Vec::new()))]);
    let c = plain_struct("M", "C", Vec::new(), vec![field("x", IDLType::U8)]);
    let pkg = package_of(vec![c, a, b]);
    assert_eq!(
        typed(&reference("M", "A", Vec::new()), &pkg).unwrap(),
        "{\n  b: {\n    c: {\n      x: number;\n    };\n  };\n}"
    );
}

#[test]
fn serializers_follow_the_exact_form() {
    assert_eq!(serialize_mapped("args.amount", "p.U64"), "p.serializers.u64(args.amount)");
    assert_eq!(serialize_mapped("args.amount", "p.U128"), "p.serializers.u128(args.amount)");
    assert_eq!(serialize_mapped("args.to", "p.RawAddress"), "p.serializers.hexString(args.to)");
    assert_eq!(serialize_mapped("args.to", "p.RawSigner"), "p.serializers.hexString(args.to)");
    assert_eq!(serialize_mapped("args.to", "p.ByteString"), "p.serializers.hexString(args.to)");
    assert_eq!(serialize_mapped("args.to", "p.HexStringArg"), "p.serializers.hexString(args.to)");
    assert_eq!(serialize_mapped("args.flag", "boolean"), "args.flag");
    assert_eq!(serialize_mapped("args.n", "number"), "args.n");
    assert_eq!(serialize_mapped("args.s", "string"), "args.s");
    assert_eq!(serialize_mapped("args.s", "unknown"), "args.s");
}

#[test]
fn arrays_are_serialized_element_by_element() {
    assert_eq!(
        serialize_mapped("args.amounts", "ReadonlyArray<p.U64>"),
        "args.amounts.map((inner_args__amounts) => p.serializers.u64(inner_args__amounts))"
    );
    assert_eq!(
        serialize_mapped("args.m", "ReadonlyArray<ReadonlyArray<p.ByteString>>"),
        "args.m.map((inner_args__m) => inner_args__m.map((inner_inner_args__m) => p.serializers.hexString(inner_inner_args__m)))"
    );
    assert_eq!(serialize_mapped("args.flags", "ReadonlyArray<boolean>"), "args.flags");
    assert_eq!(serialize_mapped("args.x", "ReadonlyArray"), "args.x");
}

#[test]
fn array_forms_are_told_apart() {
    assert_eq!(array_element("ReadonlyArray<p.U64>"), Some("p.U64".to_string()));
    assert_eq!(array_element("ReadonlyArray<>"), Some(String::new()));
    assert_eq!(array_element("ReadonlyArray<"), None);
    assert_eq!(array_element("p.U64"), None);
    assert!(form_needs_serializer("ReadonlyArray<ReadonlyArray<p.U128>>"));
    assert!(!form_needs_serializer("ReadonlyArray<ReadonlyArray<number>>"));
    assert!(form_needs_serializer("p.RawSigner"));
    assert!(!form_needs_serializer("{\n  value: p.U64;\n}"));
}

#[test]
fn types_of_one_form_get_one_serializer() {
    let pkg = package_of(Vec::new());
    let ctx = CodegenContext::new(&pkg);
    let as_string = reference("ASCII", "String", Vec::new());
    assert_eq!(serialize_arg("args.a", &as_string, &ctx).unwrap(), "args.a");
    assert_eq!(
        serialize_arg("args.a", &IDLType::Address, &ctx).unwrap(),
        "p.serializers.hexString(args.a)"
    );
    assert_eq!(
        serialize_arg("args.a", &IDLType::Signer, &ctx).unwrap(),
        "p.serializers.hexString(args.a)"
    );
    assert_eq!(
        serialize_arg("args.a", &vector(IDLType::U8), &ctx).unwrap(),
        "p.serializers.hexString(args.a)"
    );
    assert_eq!(
        serialize_arg("args.a", &vector(IDLType::Address), &ctx).unwrap(),
        "args.a.map((inner_args__a) => p.serializers.hexString(inner_args__a))"
    );
    assert_eq!(
        serialize_arg("args.a", &IDLType::Tuple(Vec::new()), &ctx),
        Err(GenError::UnsupportedType)
    );
    assert_eq!(
        serialize_arg("args.a", &reference("No", "Such", Vec::new()), &ctx),
        Err(GenError::UnresolvedStructReference)
    );
}
