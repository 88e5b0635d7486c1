use move_ts::error::GenError;
use move_ts::idl::{
    IDLAbility, IDLArgument, IDLError, IDLField, IDLModule, IDLPackage, IDLScriptFunction,
    IDLStruct, IDLStructType, IDLType, IDLTypeParam, ModuleId, StructId,
};
use move_ts::idl::are_well_formed;
use move_ts::idl_module::{structs_json, GeneratedFile, IDLModuleGenerator};
use move_ts::idl_package::{
    generate_module_reexports, generate_package_files, get_modules_to_generate,
    IDLPackageGenerator,
};
use move_ts::json::{string_to_pretty, StringObject};
use move_ts::idl_struct::{generate_struct_fields, is_marker, struct_generics, struct_scope};
use move_ts::script_function::{script_fn_type_args, ScriptFunctionType};
use move_ts::{Codegen, CodegenContext};

fn field(name: &str, ty: IDLType) -> IDLField {
    IDLField { name: name.to_string(), doc: None, ty }
}

fn argument(name: &str, ty: IDLType) -> IDLArgument {
    IDLArgument { name: name.to_string(), doc: None, ty }
}

fn param(name: &str, is_phantom: bool) -> IDLTypeParam {
    IDLTypeParam { name: name.to_string(), is_phantom }
}

fn balance() -> IDLStruct {
    IDLStruct {
        name: StructId::new("0x1", "Coin", "Balance"),
        doc: None,
        type_params: Vec::new(),
        fields: vec![field("value", IDLType::U64)],
        abilities: vec![IDLAbility::Store, IDLAbility::Key],
    }
}

fn transfer() -> IDLScriptFunction {
    IDLScriptFunction {
        name: "transfer".to_string(),
        doc: None,
        ty_args: Vec::new(),
        args: vec![argument("to", IDLType::Address), argument("amount", IDLType::U64)],
    }
}

fn module(
    name: &str,
    functions: Vec<IDLScriptFunction>,
    structs: Vec<IDLStruct>,
    errors: Vec<IDLError>,
) -> IDLModule {
    IDLModule {
        module_id: ModuleId::new("0x1", name),
        doc: None,
        functions,
        structs,
        errors,
        json: "{\"module_id\":\"0x1::".to_string() + name + "\"}",
        errors_json: "{}".to_string(),
        functions_json: "{}".to_string(),
    }
}

fn coin() -> IDLModule {
    module("Coin", vec![transfer()], vec![balance()], Vec::new())
}

fn package(modules: Vec<IDLModule>, dependencies: Vec<IDLModule>, structs: Vec<IDLStruct>) -> IDLPackage {
    IDLPackage {
        name: "MyPkg".to_string(),
        modules,
        dependencies,
        structs,
        errors_json: "{}".to_string(),
    }
}

fn coin_package() -> IDLPackage {
    package(vec![coin()], Vec::new(), vec![balance()])
}

fn content<'a>(files: &'a [GeneratedFile], path: &str) -> Option<&'a str> {
    files.iter().find(|f| f.path == path).map(|f| f.content.as_str())
}

fn paths(files: &[GeneratedFile]) -> Vec<&str> {
    files.iter().map(|f| f.path.as_str()).collect()
}

#[test]
fn struct_declaration_lists_its_fields_in_order() {
    let pkg = coin_package();
    let ctx = CodegenContext::new(&pkg);
    assert_eq!(
        balance().generate_typescript(&ctx).unwrap(),
        "export type BalanceData = {\n  value: p.U64;\n};"
    );
    let mut pair = balance();
    pair.doc = Some("A pair.".to_string());
    pair.fields = vec![
        field("second", IDLType::Bool),
        field("first", IDLType::Vector(Box::new(IDLType::U8))),
    ];
    assert_eq!(
        pair.generate_typescript(&ctx).unwrap(),
        "/** A pair. */\nexport type BalanceData = {\n  second: boolean;\n  first: p.ByteString;\n};"
    );
    assert_eq!(
        generate_struct_fields(&pair, &ctx).unwrap().to_string(),
        "second: boolean;\nfirst: p.ByteString;"
    );
}

#[test]
fn phantom_type_parameters_are_left_out() {
    let pkg = coin_package();
    let ctx = CodegenContext::new(&pkg);
    let mut s = balance();
    s.type_params = vec![param("T", false), param("U", true)];
    s.fields = vec![field("value", IDLType::TypeParam(0))];
    assert_eq!(struct_generics(&s.type_params), "<_T = unknown>");
    assert_eq!(struct_scope(&s.type_params), vec!["_T".to_string()]);
    assert_eq!(
        s.generate_typescript(&ctx).unwrap(),
        "export type BalanceData<_T = unknown> = {\n  value: _T;\n};"
    );
    s.type_params = vec![param("A", false), param("P", true), param("B", false)];
    assert_eq!(struct_generics(&s.type_params), "<_A = unknown, _B = unknown>");
    s.type_params = vec![param("P", true)];
    assert_eq!(struct_generics(&s.type_params), "");
    assert_eq!(
        s.generate_typescript(&ctx).unwrap(),
        "export type BalanceData = {\n  value: unknown;\n};"
    );
}

#[test]
fn marker_struct_has_no_declaration() {
    let pkg = coin_package();
    let ctx = CodegenContext::new(&pkg);
    let mut s = balance();
    s.doc = Some("Nothing inside.".to_string());
    s.fields = vec![field("dummy_field", IDLType::Bool)];
    assert!(is_marker(&s));
    assert_eq!(s.generate_typescript(&ctx).unwrap(), "");
    s.fields = vec![field("dummy_field", IDLType::U8)];
    assert!(!is_marker(&s));
    s.fields = vec![field("dummy", IDLType::Bool)];
    assert!(!is_marker(&s));
    s.fields = vec![field("dummy_field", IDLType::Bool), field("x", IDLType::Bool)];
    assert!(!is_marker(&s));
}

#[test]
fn struct_with_unresolved_field_fails() {
    let pkg = coin_package();
    let ctx = CodegenContext::new(&pkg);
    let mut s = balance();
    s.fields = vec![field(
        "inner",
        IDLType::Struct(IDLStructType {
            name: StructId::new("0x1", "Coin", "Gone"),
            ty_args: Vec::new(),
        }),
    )];
    assert_eq!(s.generate_typescript(&ctx), Err(GenError::UnresolvedStructReference));
}

#[test]
fn names_of_a_script_function() {
    let m = coin();
    let mut f = transfer();
    f.name = "transfer_many_coins".to_string();
    let t = ScriptFunctionType::new(&m, &f);
    assert_eq!(t.name(), "transfer_many_coins");
    assert_eq!(t.full_name(), "0x1::Coin::transfer_many_coins");
    assert_eq!(t.doc_link(), "{@link entry.transfer_many_coins}");
    assert_eq!(t.payload_args_type_name(), "TransferManyCoinsArgs");
    assert!(t.should_render_payload_struct());
}

#[test]
fn builder_serializes_each_argument() {
    let pkg = coin_package();
    let ctx = CodegenContext::new(&pkg);
    let m = coin();
    let f = transfer();
    let t = ScriptFunctionType::new(&m, &f);
    assert_eq!(
        t.generate_typescript(&ctx).unwrap(),
        "export const transfer = ({ args }: mod.TransferArgs): payloads.Transfer => ({\n  type: \"script_function_payload\",\n  function: \"0x1::Coin::transfer\",\n  type_arguments: [],\n  arguments: [p.serializers.hexString(args.to), p.serializers.u64(args.amount)],\n});"
    );
}

#[test]
fn builder_with_type_arguments_and_documentation() {
    let pkg = coin_package();
    let ctx = CodegenContext::new(&pkg);
    let m = coin();
    let mut f = transfer();
    f.doc = Some("Moves coins.".to_string());
    f.ty_args = vec!["CoinType".to_string(), "Fee".to_string()];
    let t = ScriptFunctionType::new(&m, &f);
    assert_eq!(
        t.generate_typescript(&ctx).unwrap(),
        "/** Moves coins. */\nexport const transfer = ({ args, typeArgs }: mod.TransferArgs): payloads.Transfer => ({\n  type: \"script_function_payload\",\n  function: \"0x1::Coin::transfer\",\n  type_arguments: [typeArgs.CoinType, typeArgs.Fee],\n  arguments: [p.serializers.hexString(args.to), p.serializers.u64(args.amount)],\n});"
    );
    f.args = Vec::new();
    let only_types = ScriptFunctionType::new(&m, &f);
    assert!(only_types.should_render_payload_struct());
    assert_eq!(
        only_types.generate_typescript(&ctx).unwrap(),
        "/** Moves coins. */\nexport const transfer = ({ typeArgs }: mod.TransferArgs): payloads.Transfer => ({\n  type: \"script_function_payload\",\n  function: \"0x1::Coin::transfer\",\n  type_arguments: [typeArgs.CoinType, typeArgs.Fee],\n  arguments: [],\n});"
    );
}

#[test]
fn function_without_arguments_takes_no_payload() {
    let pkg = coin_package();
    let ctx = CodegenContext::new(&pkg);
    let m = coin();
    let f = IDLScriptFunction {
        name: "initialize".to_string(),
        doc: None,
        ty_args: Vec::new(),
        args: Vec::new(),
    };
    let t = ScriptFunctionType::new(&m, &f);
    assert!(!t.should_render_payload_struct());
    assert_eq!(
        t.generate_typescript(&ctx).unwrap(),
        "export const initialize = (): payloads.Initialize => ({\n  type: \"script_function_payload\",\n  function: \"0x1::Coin::initialize\",\n  type_arguments: [],\n  arguments: [],\n});"
    );
    let bare = module("Coin", vec![f], Vec::new(), Vec::new());
    let index = bare.generate_typescript(&ctx).unwrap();
    assert!(!index.contains("InitializeArgs"));
    assert!(index.contains("@movingco/prelude\";\n\n\n\n\n\n\nexport * as entry from"));
}

#[test]
fn payload_arguments_type_has_a_record_for_each_kind() {
    let pkg = coin_package();
    let ctx = CodegenContext::new(&pkg);
    let m = coin();
    let mut f = transfer();
    let t = ScriptFunctionType::new(&m, &f);
    assert_eq!(
        t.payload().generate_typescript(&ctx).unwrap(),
        "/** Payload arguments for {@link entry.transfer}. */\nexport type TransferArgs = {\n  args: {\n    to: string;\n    amount: string;\n  };\n };"
    );
    f.ty_args = vec!["CoinType".to_string()];
    f.args[0].doc = Some("IDL type: `Address`".to_string());
    let with_types = ScriptFunctionType::new(&m, &f);
    assert_eq!(
        with_types.payload().generate_typescript(&ctx).unwrap(),
        "/** Payload arguments for {@link entry.transfer}. */\nexport type TransferArgs = {\n  args: {\n    /** IDL type: `Address` */\n    to: string;\n    amount: string;\n  };\n  typeArgs: {\n    CoinType: string;\n  };\n };"
    );
    assert_eq!(
        f.args[0].generate_typescript(&ctx).unwrap(),
        "/** IDL type: `Address` */\nto: string;"
    );
}

#[test]
fn type_argument_entries_are_string_slots() {
    assert_eq!(
        script_fn_type_args(&vec!["A".to_string(), "B".to_string()]).to_string(),
        "A: string;\nB: string;"
    );
    assert_eq!(script_fn_type_args(&Vec::new()).to_string(), "");
}

#[test]
fn payload_type_lists_loose_arguments() {
    let pkg = coin_package();
    let ctx = CodegenContext::new(&pkg);
    let m = coin();
    let mut f = transfer();
    let t = ScriptFunctionType::new(&m, &f);
    assert_eq!(
        t.generate_entry_payload_struct(&ctx).unwrap().to_string(),
        "/** Script function payload for `0x1::Coin::transfer`. */\nexport type Transfer = {\n  readonly type: \"script_function_payload\";\n  readonly function: \"0x1::Coin::transfer\";\n  readonly arguments: [to: string, amount: string];\n  readonly type_arguments: [];\n };"
    );
    f.doc = Some("Moves coins.".to_string());
    f.ty_args = vec!["C".to_string(), "D".to_string()];
    let documented = ScriptFunctionType::new(&m, &f);
    assert_eq!(
        documented.generate_entry_payload_struct(&ctx).unwrap().to_string(),
        "/**\n * Script function payload for `0x1::Coin::transfer`.\n * \n * Moves coins.\n */\nexport type Transfer = {\n  readonly type: \"script_function_payload\";\n  readonly function: \"0x1::Coin::transfer\";\n  readonly arguments: [to: string, amount: string];\n  readonly type_arguments: [C: string, D: string];\n };"
    );
}

#[test]
fn function_with_unsupported_argument_fails() {
    let pkg = coin_package();
    let ctx = CodegenContext::new(&pkg);
    let m = coin();
    let mut f = transfer();
    f.args.push(argument("pair", IDLType::Tuple(Vec::new())));
    let t = ScriptFunctionType::new(&m, &f);
    assert_eq!(t.generate_typescript(&ctx), Err(GenError::UnsupportedType));
    assert_eq!(t.payload().generate_typescript(&ctx), Err(GenError::UnsupportedType));
    assert_eq!(t.generate_entry_payload_struct(&ctx), Err(GenError::UnsupportedType));
}

#[test]
fn module_generator_units() {
    let pkg = coin_package();
    let ctx = CodegenContext::new(&pkg);
    let m = coin();
    let generator = IDLModuleGenerator::new(&m);
    assert!(generator.has_entrypoints());
    assert_eq!(generator.script_fns.len(), 1);
    assert_eq!(
        generator.generate_module_doc(),
        "/**\n * **Module ID:** `0x1::Coin`\n * \n * @module\n */\n"
    );
    assert_eq!(
        generator.generate_idl_module().unwrap().to_string(),
        "/**\n * The IDL of the module.\n * \n * @module\n */\n/** The IDL of the module. */\nexport const idl = {\"module_id\":\"0x1::Coin\"} as const;"
    );
    assert_eq!(generator.generate_errors_module().unwrap(), None);
    assert_eq!(
        generator.generate_entrypoint_module(&ctx).unwrap().to_string(),
        "/**\n * Entrypoint builders.\n * \n * @module\n */\nimport * as p from \"@movingco/prelude\";\n\nimport * as mod from './index.js';\nimport * as payloads from './payloads.js';\nexport const transfer = ({ args }: mod.TransferArgs): payloads.Transfer => ({\n  type: \"script_function_payload\",\n  function: \"0x1::Coin::transfer\",\n  type_arguments: [],\n  arguments: [p.serializers.hexString(args.to), p.serializers.u64(args.amount)],\n});"
    );
    assert_eq!(
        generator.generate_entry_names_module(&ctx).unwrap().to_string(),
        "/**\n * Names of all script functions.\n * \n * @module\n */\n\n/** Script function type for `0x1::Coin::transfer`. */\nexport const transfer = \"0x1::Coin::transfer\" as const;"
    );
    assert_eq!(
        generator.generate_entry_payloads_module(&ctx).unwrap().to_string(),
        "/**\n * Entrypoint script function payloads.\n * \n * @module\n */\n\n/** Script function payload for `0x1::Coin::transfer`. */\nexport type Transfer = {\n  readonly type: \"script_function_payload\";\n  readonly function: \"0x1::Coin::transfer\";\n  readonly arguments: [to: string, amount: string];\n  readonly type_arguments: [];\n };"
    );
}

#[test]
fn module_documentation_comes_before_its_identifier() {
    let mut m = coin();
    m.doc = Some("Coins.".to_string());
    let generator = IDLModuleGenerator::new(&m);
    assert_eq!(
        generator.generate_module_doc(),
        "/**\n * Coins.\n * \n * **Module ID:** `0x1::Coin`\n * \n * @module\n */\n"
    );
}

#[test]
fn entry_bodies_are_separated_by_an_empty_line() {
    let pkg = coin_package();
    let ctx = CodegenContext::new(&pkg);
    let init = || IDLScriptFunction {
        name: "init".to_string(),
        doc: None,
        ty_args: Vec::new(),
        args: Vec::new(),
    };
    let m = module("Coin", vec![init(), init()], Vec::new(), Vec::new());
    let generator = IDLModuleGenerator::new(&m);
    let one = "export const init = (): payloads.Init => ({\n  type: \"script_function_payload\",\n  function: \"0x1::Coin::init\",\n  type_arguments: [],\n  arguments: [],\n});";
    assert_eq!(
        generator.generate_entrypoint_bodies(&ctx).unwrap().to_string(),
        format!("{}\n\n{}", one, one)
    );
}

#[test]
fn errors_unit_has_a_constant_for_each_error() {
    let errors = vec![
        IDLError {
            code: 1,
            name: "E_FOO".to_string(),
            doc: Some("Foo.".to_string()),
            json: "{\n  \"code\": 1,\n  \"name\": \"E_FOO\"\n}".to_string(),
        },
        IDLError {
            code: 7,
            name: "E_BAR".to_string(),
            doc: None,
            json: "{\n  \"code\": 7,\n  \"name\": \"E_BAR\"\n}".to_string(),
        },
    ];
    let m = module("Coin", Vec::new(), Vec::new(), errors);
    let generator = IDLModuleGenerator::new(&m);
    assert!(!generator.has_entrypoints());
    assert_eq!(
        generator.generate_errors_module().unwrap().unwrap().to_string(),
        "/**\n * Module errors.\n * \n * @module\n */\n/** Foo. */\nexport const E_FOO = {\n  \"code\": 1,\n  \"name\": \"E_FOO\"\n} as const;\n\nexport const E_BAR = {\n  \"code\": 7,\n  \"name\": \"E_BAR\"\n} as const;"
    );
    let pkg = package(Vec::new(), Vec::new(), Vec::new());
    let ctx = CodegenContext::new(&pkg);
    let files = generator.generate_files(&ctx).unwrap();
    assert_eq!(paths(&files), vec!["Coin/idl.ts", "Coin/errors.ts", "Coin/index.ts"]);
    let index = content(&files, "Coin/index.ts").unwrap();
    assert!(index.contains("\n\nexport * as errors from \"./errors.js\";\n\n"));
    assert!(!index.contains("export * as entry"));
}

#[test]
fn coin_module_end_to_end() {
    let pkg = coin_package();
    let files = generate_package_files(&pkg, false).unwrap();
    assert_eq!(
        paths(&files),
        vec!["Coin/entry.ts", "Coin/idl.ts", "Coin/index.ts", "errmap.ts", "index.ts"]
    );
    let index = content(&files, "Coin/index.ts").unwrap();
    assert!(index.contains("export type BalanceData = {\n  value: p.U64;\n};"));
    assert!(index.contains("export * as entry from \"./entry.js\";"));
    assert!(!index.contains("./errors.js"));
    assert!(index.contains(
        "export const resources = {\n  \"Balance\": \"0x1::Coin::Balance\"\n} as const;"
    ));
    assert!(index.contains(
        "export const structs = {\n  \"Balance\": \"0x1::Coin::Balance\"\n} as const;"
    ));
    let entry = content(&files, "Coin/entry.ts").unwrap();
    assert_eq!(entry.matches("export const ").count(), 1);
    assert!(entry.contains(
        "  arguments: [p.serializers.hexString(args.to), p.serializers.u64(args.amount)],\n"
    ));
    assert!(content(&files, "Coin/errors.ts").is_none());
}

#[test]
fn coin_module_index_is_exact() {
    let pkg = coin_package();
    let ctx = CodegenContext::new(&pkg);
    let expected = "/**\n * **Module ID:** `0x1::Coin`\n * \n * @module\n */\nimport * as p from \"@movingco/prelude\";\n\n\nexport type BalanceData = {\n  value: p.U64;\n};\n\n/** Payload arguments for {@link entry.transfer}. */\nexport type TransferArgs = {\n  args: {\n    to: string;\n    amount: string;\n  };\n };\n\nexport * as entry from \"./entry.js\";\nexport * as payloads from \"./payloads.js\";\nexport * as entryNames from \"./entryNames.js\";\n\nexport { idl } from \"./idl.js\";\n\n/** The address of the module. */\nexport const ADDRESS = \"0x1\" as const;\n/** The full module name. */\nexport const FULL_NAME = \"0x1::Coin\" as const;\n/** The name of the module. */\nexport const NAME = \"Coin\" as const;\n\n/** Module ID information. */\nexport const id = {\n  ADDRESS,\n  FULL_NAME,\n  NAME,\n} as const;\n\n\n\n/** Module error codes. */\nexport const errorCodes = {} as const;\n\n/** All module function IDLs. */\nexport const functions = {} as const;\n\n/** All struct types with ability `key`. */\nexport const resources = {\n  \"Balance\": \"0x1::Coin::Balance\"\n} as const;\n\n/** All struct types. */\nexport const structs = {\n  \"Balance\": \"0x1::Coin::Balance\"\n} as const;\n\n/** Payload generators for module `0x1::Coin`. */\nconst moduleImpl = {\n  ...id,\n  errorCodes,\n  functions,\n  resources,\n  structs,\n} as const;\n\nexport const moduleDefinition = moduleImpl as p.MoveModuleDefinition<\"0x1\", \"Coin\"> as typeof moduleImpl;\n";
    assert_eq!(coin().generate_typescript(&ctx).unwrap(), expected);
}

#[test]
fn resources_are_the_structs_with_the_key_ability() {
    let pkg = coin_package();
    let ctx = CodegenContext::new(&pkg);
    let mut plain = balance();
    plain.name = StructId::new("0x1", "Coin", "Receipt");
    plain.abilities = vec![IDLAbility::Copy, IDLAbility::Drop];
    let mut quoted = balance();
    quoted.name = StructId::new("0x1", "Coin", "A\"b");
    let m = module("Coin", Vec::new(), vec![plain, balance(), quoted], Vec::new());
    let index = m.generate_typescript(&ctx).unwrap();
    assert!(index.contains(
        "export const resources = {\n  \"A\\\"b\": \"0x1::Coin::A\\\"b\",\n  \"Balance\": \"0x1::Coin::Balance\"\n} as const;"
    ));
    assert!(index.contains(
        "export const structs = {\n  \"A\\\"b\": \"0x1::Coin::A\\\"b\",\n  \"Balance\": \"0x1::Coin::Balance\",\n  \"Receipt\": \"0x1::Coin::Receipt\"\n} as const;"
    ));
}

#[test]
fn index_from_given_texts() {
    let m = module("Coin", Vec::new(), Vec::new(), Vec::new());
    let index = m.index_from("STRUCTS", "PAYLOADS", "RES", "ALL");
    assert!(index.contains("prelude\";\n\n\nSTRUCTS\n\nPAYLOADS\n\n\n\nexport { idl }"));
    assert!(index.contains("export const resources = RES as const;"));
    assert!(index.contains("export const structs = ALL as const;"));
}

#[test]
fn module_reexports_are_one_per_line() {
    assert_eq!(
        generate_module_reexports("pkg", &vec!["Coin".to_string(), "Vault".to_string()])
            .unwrap()
            .to_string(),
        "export * as pkg_Coin from \"./Coin/index.js\";\nexport * as pkg_Vault from \"./Vault/index.js\";"
    );
    assert_eq!(generate_module_reexports("pkg", &Vec::new()).unwrap().to_string(), "");
}

#[test]
fn package_index_and_error_map() {
    let pkg = coin_package();
    let generator = IDLPackageGenerator::new(&pkg, false);
    assert_eq!(
        generator.generate_index().unwrap().to_string(),
        "/**\n * This module contains generated types and helper functions for the package `MyPkg`.\n * \n * @module\n */\n\nexport * as my_pkg_Coin from \"./Coin/index.js\";\nexport { errmap as my_pkg_errmap } from \"./errmap.js\";"
    );
    assert_eq!(
        generator.index_with_prefix("x").unwrap().to_string(),
        "/**\n * This module contains generated types and helper functions for the package `MyPkg`.\n * \n * @module\n */\n\nexport * as x_Coin from \"./Coin/index.js\";\nexport { errmap as x_errmap } from \"./errmap.js\";"
    );
    assert_eq!(
        generator.generate_errmap_module().unwrap().to_string(),
        "/**\n * Module containing all errors in this package.\n * \n * @module\n */\n\n/** All errors in this package. */\nexport const errmap = {} as const;"
    );
    assert_eq!(generator.module_generators().len(), 1);
}

#[test]
fn dependencies_are_skipped_unless_asked_for() {
    let vault_struct = || {
        let mut s = balance();
        s.name = StructId::new("0x1", "Vault", "Vault");
        s.fields = vec![field(
            "held",
            IDLType::Struct(IDLStructType {
                name: StructId::new("0x1", "Coin", "Balance"),
                ty_args: Vec::new(),
            }),
        )];
        s
    };
    let vault = module("Vault", Vec::new(), vec![vault_struct()], Vec::new());
    let table = vec![balance(), vault_struct()];
    let pkg = package(vec![vault], vec![coin()], table);

    let own = generate_package_files(&pkg, false).unwrap();
    assert_eq!(paths(&own), vec!["Vault/idl.ts", "Vault/index.ts", "errmap.ts", "index.ts"]);
    assert!(paths(&own).iter().all(|p| !p.starts_with("Coin/")));
    let index = content(&own, "Vault/index.ts").unwrap();
    assert!(index.contains(
        "export type VaultData = {\n  held: {\n    value: p.U64;\n  };\n};"
    ));
    assert!(!content(&own, "index.ts").unwrap().contains("Coin"));
    assert_eq!(IDLPackageGenerator::new(&pkg, false).modules_to_generate.len(), 1);

    let all = generate_package_files(&pkg, true).unwrap();
    assert_eq!(
        paths(&all),
        vec![
            "Vault/idl.ts",
            "Vault/index.ts",
            "Coin/entry.ts",
            "Coin/idl.ts",
            "Coin/index.ts",
            "errmap.ts",
            "index.ts"
        ]
    );
    assert!(content(&all, "index.ts")
        .unwrap()
        .contains("export * as my_pkg_Vault from \"./Vault/index.js\";\nexport * as my_pkg_Coin from \"./Coin/index.js\";\n"));
    assert_eq!(IDLPackageGenerator::new(&pkg, true).modules_to_generate.len(), 2);
}

#[test]
fn a_failing_module_fails_the_package() {
    let mut broken = balance();
    broken.fields = vec![field("t", IDLType::Tuple(Vec::new()))];
    let m = module("Coin", Vec::new(), vec![broken], Vec::new());
    let pkg = package(vec![m], Vec::new(), Vec::new());
    assert_eq!(generate_package_files(&pkg, false).err(), Some(GenError::UnsupportedType));
    let empty = package(Vec::new(), Vec::new(), Vec::new());
    assert_eq!(paths(&generate_package_files(&empty, true).unwrap()), vec!["errmap.ts", "index.ts"]);
}

#[test]
fn context_hands_out_module_generators_and_joins() {
    let pkg = coin_package();
    let ctx = CodegenContext::new(&pkg);
    let m = coin();
    assert_eq!(ctx.get_module_generator(&m).script_fns.len(), 1);
    assert_eq!(ctx.package().name, "MyPkg");
    let types = vec![IDLType::U64, IDLType::Bool];
    assert_eq!(ctx.try_join(&types).unwrap().to_string(), "p.U64\n\nboolean");
    assert_eq!(ctx.try_join_with_separator(&types, ", ").unwrap().to_string(), "p.U64, boolean");
    let bad = vec![IDLType::U64, IDLType::Tuple(Vec::new()), IDLType::Bool];
    assert_eq!(ctx.try_join(&bad), Err(GenError::UnsupportedType));
}

#[test]
fn module_index_through_the_context() {
    let pkg = coin_package();
    let ctx = CodegenContext::new(&pkg);
    let m = coin();
    assert_eq!(ctx.generate(&m).unwrap().to_string(), m.generate_typescript(&ctx).unwrap());
    let modules = vec![coin(), module("Empty", Vec::new(), Vec::new(), Vec::new())];
    let joined = ctx.try_join(&modules).unwrap().to_string();
    assert!(joined.contains("`0x1::Coin`"));
    assert!(joined.contains("`0x1::Empty`"));
}

#[test]
fn index_of_an_empty_module_succeeds() {
    let pkg = package(Vec::new(), Vec::new(), Vec::new());
    let ctx = CodegenContext::new(&pkg);
    let m = module("Empty", Vec::new(), Vec::new(), Vec::new());
    let index = m.generate_typescript(&ctx).unwrap();
    assert!(index.contains("export const resources = {} as const;"));
    assert!(index.contains("export const structs = {} as const;"));
    assert_eq!(structs_json(&m, true).unwrap(), "{}");
}

#[test]
fn string_objects_are_written_in_key_order() {
    let mut object = StringObject::new();
    object.insert("b", "2");
    object.insert("a", "1");
    object.insert("b", "3");
    assert_eq!(object.to_pretty().unwrap(), "{\n  \"a\": \"1\",\n  \"b\": \"3\"\n}");
    assert_eq!(StringObject::new().to_pretty().unwrap(), "{}");
    assert_eq!(string_to_pretty("a\"b\n").unwrap(), "\"a\\\"b\\n\"");
}

#[test]
fn well_formed_modules_have_ascending_codes() {
    let error = |code: u64| IDLError {
        code,
        name: format!("E{}", code),
        doc: None,
        json: "{}".to_string(),
    };
    assert!(module("M", Vec::new(), Vec::new(), Vec::new()).is_well_formed());
    assert!(module("M", Vec::new(), Vec::new(), vec![error(1)]).is_well_formed());
    assert!(module("M", Vec::new(), Vec::new(), vec![error(1), error(2), error(9)]).is_well_formed());
    assert!(!module("M", Vec::new(), Vec::new(), vec![error(1), error(1)]).is_well_formed());
    assert!(!module("M", Vec::new(), Vec::new(), vec![error(1), error(3), error(2)]).is_well_formed());
}

#[test]
fn well_formed_packages_have_distinct_modules() {
    let plain = |name: &str| module(name, Vec::new(), Vec::new(), Vec::new());
    assert!(package(vec![plain("A"), plain("B")], vec![plain("A")], Vec::new()).is_well_formed());
    assert!(!package(vec![plain("A"), plain("B"), plain("A")], Vec::new(), Vec::new()).is_well_formed());
    assert!(!package(Vec::new(), vec![plain("C"), plain("C")], Vec::new()).is_well_formed());
    let mut elsewhere = plain("A");
    elsewhere.module_id = ModuleId::new("0x2", "A");
    assert!(package(vec![plain("A"), elsewhere], Vec::new(), Vec::new()).is_well_formed());
    let bad = module(
        "A",
        Vec::new(),
        Vec::new(),
        vec![
            IDLError { code: 2, name: "X".to_string(), doc: None, json: "{}".to_string() },
            IDLError { code: 1, name: "Y".to_string(), doc: None, json: "{}".to_string() },
        ],
    );
    assert!(!package(vec![bad], Vec::new(), Vec::new()).is_well_formed());
    assert!(are_well_formed(&vec![plain("A"), plain("B")]));
}

#[test]
fn modules_to_generate_are_own_then_dependencies() {
    let plain = |name: &str| module(name, Vec::new(), Vec::new(), Vec::new());
    let pkg = package(vec![plain("A"), plain("B")], vec![plain("C")], Vec::new());
    let own: Vec<&str> =
        get_modules_to_generate(&pkg, false).iter().map(|m| m.module_id.name()).collect();
    assert_eq!(own, vec!["A", "B"]);
    let all: Vec<&str> =
        get_modules_to_generate(&pkg, true).iter().map(|m| m.module_id.name()).collect();
    assert_eq!(all, vec!["A", "B", "C"]);
}

#[test]
fn generated_paths_differ() {
    let pkg = coin_package();
    let files = generate_package_files(&pkg, false).unwrap();
    let mut seen = paths(&files);
    seen.sort();
    seen.dedup();
    assert_eq!(seen.len(), files.len());
}
