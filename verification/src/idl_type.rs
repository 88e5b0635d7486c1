//! The TypeScript form of a type, and the expression that serialises an argument of it.
use crate::error::{is_text_result, GenError};
use crate::format::{doc_comment, gen_doc_string, indent, indent_text};
use crate::idl::{
    struct_models, type_model, type_models, FieldModel, IDLField, IDLStruct, IDLStructType,
    IDLType, StructId, StructIdModel, StructModel, TypeModel,
};
use crate::text::{
    concat2, from_chars, join, join_strings, replace_char, replace_char_str, starts_with, str_eq,
    strs, to_chars, trim, trim_str,
};
use crate::{Codegen, CodegenContext};
use crate::idl::PackageModel;
use vstd::prelude::*;
use vstd::string::*;

verus! {

/// The first struct of the table with the given identifier.
pub open spec fn find_struct(table: Seq<StructModel>, name: StructIdModel) -> Option<StructModel>
    decreases table.len(),
{
    if table.len() == 0 {
        None
    } else if table[0].name == name {
        Some(table[0])
    } else {
        find_struct(table.drop_first(), name)
    }
}

/// The number of nodes of a type.
pub open spec fn type_size(ty: TypeModel) -> nat
    decreases ty,
{
    match ty {
        TypeModel::Vector(inner) => 1 + type_size(*inner),
        TypeModel::Struct(_, args) => 1 + types_size(args),
        TypeModel::Tuple(items) => 1 + types_size(items),
        _ => 1,
    }
}

/// The number of nodes of the types, and one more for each type.
pub open spec fn types_size(tys: Seq<TypeModel>) -> nat
    decreases tys,
{
    if tys.len() == 0 {
        0
    } else {
        types_size(tys.drop_last()) + type_size(tys.last()) + 1
    }
}

/// The number of nodes of the types of the fields, and one more for each field.
pub open spec fn fields_size(fields: Seq<FieldModel>) -> nat
    decreases fields.len(),
{
    if fields.len() == 0 {
        0
    } else {
        fields_size(fields.drop_last()) + type_size(fields.last().ty) + 1
    }
}

/// The name of a wrapper type of the client library where types are rendered exactly,
/// and `string` where they are rendered loosely.
pub open spec fn wrapper_type(name: Seq<char>, typed: bool) -> Seq<char> {
    if typed {
        name
    } else {
        "string"@
    }
}

/// The entry of a field in a structural type: its documentation comment on a line of
/// its own, then its name and the form of its type.
pub open spec fn field_entry(doc: Option<Seq<char>>, name: Seq<char>, ty: Seq<char>) -> Seq<char> {
    (match doc {
        Some(d) => "\n"@ + doc_comment(d),
        None => Seq::empty(),
    }) + name + ": "@ + ty + ";"@
}

/// The structural type with the given field entries.
pub open spec fn struct_body(entries: Seq<Seq<char>>) -> Seq<char> {
    "{\n"@ + indent_text(trim(join(entries, "\n"@))) + "\n}"@
}

/// The TypeScript form of a type.
///
/// `table` holds every struct of the package, `scope` the forms bound to the type
/// parameters in scope, by position. With `typed` the wide integers, addresses and
/// byte strings render as the wrapper types of the client library, without it as
/// `string`. A struct renders as the structural type of its fields, each field in the
/// scope that the struct's type arguments make. `depth` bounds how deep structs may
/// nest in structs.
pub open spec fn type_expr(
    table: Seq<StructModel>,
    ty: TypeModel,
    scope: Seq<Seq<char>>,
    typed: bool,
    depth: nat,
) -> Result<Seq<char>, GenError>
    decreases depth, type_size(ty),
{
    match ty {
        TypeModel::Bool => Ok("boolean"@),
        TypeModel::U8 => Ok("number"@),
        TypeModel::U64 => Ok(wrapper_type("p.U64"@, typed)),
        TypeModel::U128 => Ok(wrapper_type("p.U128"@, typed)),
        TypeModel::Address => Ok(wrapper_type("p.RawAddress"@, typed)),
        TypeModel::Signer => Ok(wrapper_type("p.RawSigner"@, typed)),
        TypeModel::Vector(inner) => match *inner {
            TypeModel::U8 => Ok(wrapper_type("p.ByteString"@, typed)),
            _ => match type_expr(table, *inner, scope, typed, depth) {
                Ok(t) => Ok("ReadonlyArray<"@ + t + ">"@),
                Err(e) => Err(e),
            },
        },
        TypeModel::Struct(name, args) => if is_standard_string(name) {
            Ok("string"@)
        } else {
            match type_exprs(table, args, scope, typed, depth) {
                Err(e) => Err(e),
                Ok(bound) => struct_expr(table, name, bound, typed, depth),
            }
        },
        TypeModel::TypeParam(i) => Ok(
            if i < scope.len() {
                scope[i as int]
            } else {
                "unknown"@
            },
        ),
        TypeModel::Tuple(_) => Err(GenError::UnsupportedType),
    }
}

/// The structural type of the named struct, its fields in the given scope.
pub open spec fn struct_expr(
    table: Seq<StructModel>,
    name: StructIdModel,
    scope: Seq<Seq<char>>,
    typed: bool,
    depth: nat,
) -> Result<Seq<char>, GenError>
    decreases depth, 0nat,
{
    match find_struct(table, name) {
        None => Err(GenError::UnresolvedStructReference),
        Some(def) => if depth == 0 {
            Err(GenError::RecursiveStructReference)
        } else {
            match field_entries(table, def.fields, scope, typed, (depth - 1) as nat) {
                Err(e) => Err(e),
                Ok(entries) => Ok(struct_body(entries)),
            }
        },
    }
}

/// The forms of the types, in their order, or the error of the first that has none.
pub open spec fn type_exprs(
    table: Seq<StructModel>,
    tys: Seq<TypeModel>,
    scope: Seq<Seq<char>>,
    typed: bool,
    depth: nat,
) -> Result<Seq<Seq<char>>, GenError>
    decreases depth, types_size(tys),
{
    if tys.len() == 0 {
        Ok(Seq::empty())
    } else {
        match type_exprs(table, tys.drop_last(), scope, typed, depth) {
            Err(e) => Err(e),
            Ok(done) => match type_expr(table, tys.last(), scope, typed, depth) {
                Err(e) => Err(e),
                Ok(t) => Ok(done.push(t)),
            },
        }
    }
}

/// The entries of the fields, in their order, or the error of the first field whose
/// type has no form.
pub open spec fn field_entries(
    table: Seq<StructModel>,
    fields: Seq<FieldModel>,
    scope: Seq<Seq<char>>,
    typed: bool,
    depth: nat,
) -> Result<Seq<Seq<char>>, GenError>
    decreases depth, fields_size(fields),
{
    if fields.len() == 0 {
        Ok(Seq::empty())
    } else {
        match field_entries(table, fields.drop_last(), scope, typed, depth) {
            Err(e) => Err(e),
            Ok(done) => match type_expr(table, fields.last().ty, scope, typed, depth) {
                Err(e) => Err(e),
                Ok(t) => Ok(done.push(field_entry(fields.last().doc, fields.last().name, t))),
            },
        }
    }
}

/// The entry of one field, or the error of its type.
pub open spec fn field_expr(
    table: Seq<StructModel>,
    field: FieldModel,
    scope: Seq<Seq<char>>,
    typed: bool,
    depth: nat,
) -> Result<Seq<char>, GenError> {
    match type_expr(table, field.ty, scope, typed, depth) {
        Err(e) => Err(e),
        Ok(t) => Ok(field_entry(field.doc, field.name, t)),
    }
}

/// The model of a struct type is made of the models of its parts.
pub proof fn lemma_type_model_struct(st: IDLStructType)
    ensures
        type_model(IDLType::Struct(st)) == TypeModel::Struct(st.name@, type_models(st.ty_args@)),
{
    let a = type_model(IDLType::Struct(st));
    assert(a->Struct_1 =~= type_models(st.ty_args@));
}

/// Each of the types is smaller than all of them together.
pub proof fn lemma_types_size_index(tys: Seq<TypeModel>, i: int)
    requires
        0 <= i < tys.len(),
    ensures
        type_size(tys[i]) < types_size(tys),
    decreases tys.len(),
{
    if i < tys.len() - 1 {
        lemma_types_size_index(tys.drop_last(), i);
    }
}

/// Where no struct before position `i` has the identifier, `find_struct` gives the
/// struct at `i` if that one has it, and nothing if `i` is the end of the table.
pub proof fn lemma_find_struct(table: Seq<StructModel>, name: StructIdModel, i: int)
    requires
        0 <= i <= table.len(),
        forall|k: int| 0 <= k < i ==> table[k].name != name,
        i < table.len() ==> table[i].name == name,
    ensures
        find_struct(table, name) == if i < table.len() {
            Some(table[i])
        } else {
            None
        },
    decreases i,
{
    if i > 0 {
        assert(table[0].name != name);
        let rest = table.drop_first();
        assert forall|k: int| 0 <= k < i - 1 implies rest[k].name != name by {
            assert(rest[k] == table[k + 1]);
        }
        lemma_find_struct(rest, name, i - 1);
    }
}

/// Where the forms of the first `n` types fail, those of all of them fail alike.
pub proof fn lemma_type_exprs_fail(
    table: Seq<StructModel>,
    tys: Seq<TypeModel>,
    scope: Seq<Seq<char>>,
    typed: bool,
    depth: nat,
    n: int,
)
    requires
        0 <= n <= tys.len(),
        type_exprs(table, tys.take(n), scope, typed, depth) is Err,
    ensures
        type_exprs(table, tys, scope, typed, depth) == type_exprs(
            table,
            tys.take(n),
            scope,
            typed,
            depth,
        ),
    decreases tys.len() - n,
{
    if n < tys.len() {
        assert(tys.take(n + 1).drop_last() =~= tys.take(n));
        lemma_type_exprs_fail(table, tys, scope, typed, depth, n + 1);
    } else {
        assert(tys.take(n) =~= tys);
    }
}

/// Where the entries of the first `n` fields fail, those of all of them fail alike.
pub proof fn lemma_field_entries_fail(
    table: Seq<StructModel>,
    fields: Seq<FieldModel>,
    scope: Seq<Seq<char>>,
    typed: bool,
    depth: nat,
    n: int,
)
    requires
        0 <= n <= fields.len(),
        field_entries(table, fields.take(n), scope, typed, depth) is Err,
    ensures
        field_entries(table, fields, scope, typed, depth) == field_entries(
            table,
            fields.take(n),
            scope,
            typed,
            depth,
        ),
    decreases fields.len() - n,
{
    if n < fields.len() {
        assert(fields.take(n + 1).drop_last() =~= fields.take(n));
        lemma_field_entries_fail(table, fields, scope, typed, depth, n + 1);
    } else {
        assert(fields.take(n) =~= fields);
    }
}

/// The first struct of the table with the given identifier.
pub fn find_struct_def<'a>(structs: &'a Vec<IDLStruct>, name: &StructId) -> (r: Option<
    &'a IDLStruct,
>)
    ensures
        match r {
            Some(def) => find_struct(struct_models(structs@), name@) == Some(def@),
            None => find_struct(struct_models(structs@), name@) is None,
        },
{
    let mut i: usize = 0;
    while i < structs.len()
        invariant
            i <= structs@.len(),
            forall|k: int| 0 <= k < i ==> struct_models(structs@)[k].name != name@,
        decreases structs.len() - i,
    {
        if structs[i].name.same(name) {
            proof {
                lemma_find_struct(struct_models(structs@), name@, i as int);
            }
            return Some(&structs[i]);
        }
        i = i + 1;
    }
    proof {
        lemma_find_struct(struct_models(structs@), name@, i as int);
    }
    None
}

/// The name of a wrapper type where types are rendered exactly, else `string`.
fn wrapper(name: &str, typed: bool) -> (r: String)
    ensures
        r@ == wrapper_type(name@, typed),
{
    if typed {
        String::from_str(name)
    } else {
        String::from_str("string")
    }
}

/// The form of a type, structs nested at most `depth` deep.
fn type_with_depth(
    idl_type: &IDLType,
    ctx: &CodegenContext,
    type_args: &Vec<String>,
    parse_args: bool,
    depth: usize,
) -> (r: Result<String, GenError>)
    ensures
        is_text_result(
            r,
            type_expr(ctx@.structs, idl_type@, strs(type_args@), parse_args, depth as nat),
        ),
    decreases depth, type_size(idl_type@),
{
    match idl_type {
        IDLType::Bool => Ok(String::from_str("boolean")),
        IDLType::U8 => Ok(String::from_str("number")),
        IDLType::U64 => Ok(wrapper("p.U64", parse_args)),
        IDLType::U128 => Ok(wrapper("p.U128", parse_args)),
        IDLType::Address => Ok(wrapper("p.RawAddress", parse_args)),
        IDLType::Signer => Ok(wrapper("p.RawSigner", parse_args)),
        IDLType::Vector(inner) => {
            let inner_ty: &IDLType = &**inner;
            match inner_ty {
                IDLType::U8 => {
                    proof {
                        reveal_with_fuel(type_model, 2);
                    }
                    Ok(wrapper("p.ByteString", parse_args))
                },
                _ => {
                    match type_with_depth(inner_ty, ctx, type_args, parse_args, depth) {
                        Ok(t) => {
                            let mut s = String::from_str("ReadonlyArray<");
                            s.append(t.as_str());
                            s.append(">");
                            Ok(s)
                        },
                        Err(e) => Err(e),
                    }
                },
            }
        },
        IDLType::Struct(st) => {
            let full = st.name.full_name();
            proof {
                lemma_type_model_struct(*st);
            }
            if str_eq(full.as_str(), "0x1::ASCII::String") {
                Ok(String::from_str("string"))
            } else {
                match types_with_depth(&st.ty_args, ctx, type_args, parse_args, depth) {
                    Err(e) => Err(e),
                    Ok(bound) => struct_with_depth(&st.name, ctx, &bound, parse_args, depth),
                }
            }
        },
        IDLType::TypeParam(i) => {
            let index: usize = *i as usize;
            if index < type_args.len() {
                Ok(type_args[index].clone())
            } else {
                Ok(String::from_str("unknown"))
            }
        },
        IDLType::Tuple(_) => Err(GenError::UnsupportedType),
    }
}

/// The forms of the types, structs nested at most `depth` deep.
fn types_with_depth(
    tys: &Vec<IDLType>,
    ctx: &CodegenContext,
    type_args: &Vec<String>,
    parse_args: bool,
    depth: usize,
) -> (r: Result<Vec<String>, GenError>)
    ensures
        match type_exprs(
            ctx@.structs,
            type_models(tys@),
            strs(type_args@),
            parse_args,
            depth as nat,
        ) {
            Ok(forms) => r matches Ok(v) && strs(v@) == forms,
            Err(e) => r matches Err(f) && f == e,
        },
    decreases depth, types_size(type_models(tys@)),
{
    let ghost models = type_models(tys@);
    let mut out: Vec<String> = Vec::new();
    let mut i: usize = 0;
    proof {
        assert(strs(out@) =~= Seq::<Seq<char>>::empty());
    }
    while i < tys.len()
        invariant
            i <= tys@.len(),
            models == type_models(tys@),
            type_exprs(ctx@.structs, models.take(i as int), strs(type_args@), parse_args, depth as nat)
                == Ok::<Seq<Seq<char>>, GenError>(strs(out@)),
        decreases tys.len() - i,
    {
        proof {
            assert(models.take(i + 1).drop_last() =~= models.take(i as int));
            assert(models.take(i + 1).last() == tys@[i as int]@);
            lemma_types_size_index(models, i as int);
        }
        match type_with_depth(&tys[i], ctx, type_args, parse_args, depth) {
            Ok(t) => {
                proof {
                    assert(strs(out@.push(t)) =~= strs(out@).push(t@));
                }
                out.push(t);
            },
            Err(e) => {
                proof {
                    lemma_type_exprs_fail(
                        ctx@.structs,
                        models,
                        strs(type_args@),
                        parse_args,
                        depth as nat,
                        i + 1,
                    );
                }
                return Err(e);
            },
        }
        i = i + 1;
    }
    proof {
        assert(models.take(tys@.len() as int) =~= models);
    }
    Ok(out)
}

/// The entry of a field and the form of its type.
fn field_with_depth(
    field: &IDLField,
    ctx: &CodegenContext,
    type_args: &Vec<String>,
    parse_args: bool,
    depth: usize,
) -> (r: Result<String, GenError>)
    ensures
        is_text_result(
            r,
            field_expr(ctx@.structs, field@, strs(type_args@), parse_args, depth as nat),
        ),
    decreases depth, type_size(field.ty@) + 1,
{
    match type_with_depth(&field.ty, ctx, type_args, parse_args, depth) {
        Err(e) => Err(e),
        Ok(t) => {
            let mut s = match &field.doc {
                Some(doc) => concat2("\n", gen_doc_string(doc.as_str()).as_str()),
                None => String::new(),
            };
            s.append(field.name.as_str());
            s.append(": ");
            s.append(t.as_str());
            s.append(";");
            Ok(s)
        },
    }
}

/// The structural type of the named struct, structs nested at most `depth` deep.
fn struct_with_depth(
    name: &StructId,
    ctx: &CodegenContext,
    type_args: &Vec<String>,
    parse_args: bool,
    depth: usize,
) -> (r: Result<String, GenError>)
    ensures
        is_text_result(
            r,
            struct_expr(ctx@.structs, name@, strs(type_args@), parse_args, depth as nat),
        ),
    decreases depth, 0nat,
{
    let def = match find_struct_def(&ctx.package().structs, name) {
        None => {
            return Err(GenError::UnresolvedStructReference);
        },
        Some(def) => def,
    };
    if depth == 0 {
        return Err(GenError::RecursiveStructReference);
    }
    let ghost fields = def@.fields;
    let mut entries: Vec<String> = Vec::new();
    let mut i: usize = 0;
    proof {
        assert(strs(entries@) =~= Seq::<Seq<char>>::empty());
    }
    while i < def.fields.len()
        invariant
            i <= def.fields@.len(),
            depth > 0,
            fields == def@.fields,
            find_struct(ctx@.structs, name@) == Some(def@),
            field_entries(
                ctx@.structs,
                fields.take(i as int),
                strs(type_args@),
                parse_args,
                (depth - 1) as nat,
            ) == Ok::<Seq<Seq<char>>, GenError>(strs(entries@)),
        decreases def.fields.len() - i,
    {
        proof {
            assert(fields.take(i + 1).drop_last() =~= fields.take(i as int));
            assert(fields.take(i + 1).last() == def.fields@[i as int]@);
        }
        match field_with_depth(&def.fields[i], ctx, type_args, parse_args, depth - 1) {
            Ok(t) => {
                proof {
                    assert(strs(entries@.push(t)) =~= strs(entries@).push(t@));
                }
                entries.push(t);
            },
            Err(e) => {
                proof {
                    lemma_field_entries_fail(
                        ctx@.structs,
                        fields,
                        strs(type_args@),
                        parse_args,
                        (depth - 1) as nat,
                        i + 1,
                    );
                }
                return Err(e);
            },
        }
        i = i + 1;
    }
    proof {
        assert(fields.take(def.fields@.len() as int) =~= fields);
    }
    let joined = join_strings(&entries, "\n");
    let body = indent(trim_str(joined.as_str()).as_str());
    let mut s = String::from_str("{\n");
    s.append(body.as_str());
    s.append("\n}");
    Ok(s)
}

/// The entry of a field in a structural type.
pub fn generate_field_with_type_args(
    ty: &IDLField,
    ctx: &CodegenContext,
    type_args: &Vec<String>,
    parse_args: bool,
) -> (r: Result<String, GenError>)
    ensures
        is_text_result(
            r,
            field_expr(ctx@.structs, ty@, strs(type_args@), parse_args, ctx@.structs.len()),
        ),
{
    field_with_depth(ty, ctx, type_args, parse_args, ctx.package().structs.len())
}

/// The structural type of the struct that `ty` names, its fields in the scope
/// `type_args`.
pub fn generate_struct_with_type_args(
    ty: &IDLStructType,
    ctx: &CodegenContext,
    type_args: &Vec<String>,
    parse_args: bool,
) -> (r: Result<String, GenError>)
    ensures
        is_text_result(
            r,
            struct_expr(ctx@.structs, ty.name@, strs(type_args@), parse_args, ctx@.structs.len()),
        ),
{
    struct_with_depth(&ty.name, ctx, type_args, parse_args, ctx.package().structs.len())
}

/// The TypeScript form of a type, in the scope `type_args`; exact with `parse_args`,
/// loose without. Structs may nest as deep as the struct table is long.
pub fn generate_idl_type_with_type_args(
    idl_type: &IDLType,
    ctx: &CodegenContext,
    type_args: &Vec<String>,
    parse_args: bool,
) -> (r: Result<String, GenError>)
    ensures
        is_text_result(
            r,
            type_expr(ctx@.structs, idl_type@, strs(type_args@), parse_args, ctx@.structs.len()),
        ),
{
    type_with_depth(idl_type, ctx, type_args, parse_args, ctx.package().structs.len())
}

impl Codegen for IDLType {
    /// The exact form of the type outside any scope.
    open spec fn typescript(&self, pkg: PackageModel) -> Result<Seq<char>, GenError> {
        type_expr(pkg.structs, self@, Seq::empty(), true, pkg.structs.len())
    }

    fn generate_typescript(&self, ctx: &CodegenContext) -> (r: Result<String, GenError>) {
        let scope: Vec<String> = Vec::new();
        proof {
            assert(strs(scope@) =~= Seq::<Seq<char>>::empty());
        }
        generate_idl_type_with_type_args(self, ctx, &scope, true)
    }
}

/// Whether a form is that of a read-only array.
pub open spec fn is_array_type(mapped: Seq<char>) -> bool {
    &&& "ReadonlyArray<"@.is_prefix_of(mapped)
    &&& mapped.len() > "ReadonlyArray<"@.len()
    &&& mapped.last() == '>'
}

/// The form of the elements of a read-only array.
pub open spec fn element_type(mapped: Seq<char>) -> Seq<char> {
    mapped.subrange("ReadonlyArray<"@.len() as int, mapped.len() - 1)
}

/// Whether a form is one of the wrapper types that travel as hex strings.
pub open spec fn is_hex_type(mapped: Seq<char>) -> bool {
    ||| mapped == "p.HexStringArg"@
    ||| mapped == "p.RawAddress"@
    ||| mapped == "p.RawSigner"@
    ||| mapped == "p.ByteString"@
}

/// Whether a value of the form has to be serialised before it is sent: a wide
/// integer, a hex string, or an array of such values.
pub open spec fn needs_serializer(mapped: Seq<char>) -> bool
    decreases mapped.len(),
{
    if mapped == "p.U64"@ || mapped == "p.U128"@ || is_hex_type(mapped) {
        true
    } else if is_array_type(mapped) {
        needs_serializer(element_type(mapped))
    } else {
        false
    }
}

/// The name under which the elements of the array `arg` are bound.
pub open spec fn element_arg(arg: Seq<char>) -> Seq<char> {
    "inner_"@ + replace_char(arg, '.', "__"@)
}

/// The expression that serialises the value `arg` whose exact form is `mapped`. It
/// depends on the form alone, not on the type that the form came from.
pub open spec fn serialized_arg(arg: Seq<char>, mapped: Seq<char>) -> Seq<char>
    decreases mapped.len(),
{
    if mapped == "p.U64"@ {
        "p.serializers.u64"@ + "("@ + arg + ")"@
    } else if mapped == "p.U128"@ {
        "p.serializers.u128"@ + "("@ + arg + ")"@
    } else if is_hex_type(mapped) {
        "p.serializers.hexString"@ + "("@ + arg + ")"@
    } else if is_array_type(mapped) && needs_serializer(element_type(mapped)) {
        arg + ".map(("@ + element_arg(arg) + ") => "@ + serialized_arg(
            element_arg(arg),
            element_type(mapped),
        ) + ")"@
    } else {
        arg
    }
}

/// The expression that serialises the argument `arg` of type `ty`, or the error of
/// the type.
pub open spec fn serialized_arg_of(
    table: Seq<StructModel>,
    arg: Seq<char>,
    ty: TypeModel,
) -> Result<Seq<char>, GenError> {
    match type_expr(table, ty, Seq::empty(), true, table.len()) {
        Ok(mapped) => Ok(serialized_arg(arg, mapped)),
        Err(e) => Err(e),
    }
}

/// The form of the elements, where `mapped` is the form of a read-only array.
pub fn array_element(mapped: &str) -> (r: Option<String>)
    ensures
        match r {
            Some(e) => is_array_type(mapped@) && e@ == element_type(mapped@),
            None => !is_array_type(mapped@),
        },
{
    let chars = to_chars(mapped);
    let prefix = to_chars("ReadonlyArray<");
    let n = chars.len();
    let p = prefix.len();
    if starts_with(mapped, "ReadonlyArray<") && n > p && chars[n - 1] == '>' {
        Some(from_chars(&chars, p, n - 1))
    } else {
        None
    }
}

/// Whether a form is one of the wrapper types that travel as hex strings.
pub fn is_hex_form(mapped: &str) -> (r: bool)
    ensures
        r == is_hex_type(mapped@),
{
    str_eq(mapped, "p.HexStringArg") || str_eq(mapped, "p.RawAddress") || str_eq(
        mapped,
        "p.RawSigner",
    ) || str_eq(mapped, "p.ByteString")
}

/// Whether a value of the form has to be serialised before it is sent.
pub fn form_needs_serializer(mapped: &str) -> (r: bool)
    ensures
        r == needs_serializer(mapped@),
    decreases mapped@.len(),
{
    if str_eq(mapped, "p.U64") || str_eq(mapped, "p.U128") || is_hex_form(mapped) {
        true
    } else {
        match array_element(mapped) {
            Some(element) => form_needs_serializer(element.as_str()),
            None => false,
        }
    }
}

/// `name(arg)`.
fn call_expr(name: &str, arg: &str) -> (r: String)
    ensures
        r@ == name@ + "("@ + arg@ + ")"@,
{
    let mut s = String::from_str(name);
    s.append("(");
    s.append(arg);
    s.append(")");
    s
}

/// The expression that serialises the value `arg` whose exact form is `mapped`.
pub fn serialize_mapped(arg: &str, mapped: &str) -> (r: String)
    ensures
        r@ == serialized_arg(arg@, mapped@),
    decreases mapped@.len(),
{
    if str_eq(mapped, "p.U64") {
        call_expr("p.serializers.u64", arg)
    } else if str_eq(mapped, "p.U128") {
        call_expr("p.serializers.u128", arg)
    } else if is_hex_form(mapped) {
        call_expr("p.serializers.hexString", arg)
    } else {
        match array_element(mapped) {
            Some(element) => {
                if form_needs_serializer(element.as_str()) {
                    let inner_arg = concat2("inner_", replace_char_str(arg, '.', "__").as_str());
                    let inner = serialize_mapped(inner_arg.as_str(), element.as_str());
                    let mut s = String::from_str(arg);
                    s.append(".map((");
                    s.append(inner_arg.as_str());
                    s.append(") => ");
                    s.append(inner.as_str());
                    s.append(")");
                    s
                } else {
                    String::from_str(arg)
                }
            },
            None => String::from_str(arg),
        }
    }
}

/// The expression that serialises the argument `arg` of type `ty`: the serialiser is
/// chosen by the exact form of the type.
pub fn serialize_arg(arg: &str, ty: &IDLType, ctx: &CodegenContext) -> (r: Result<
    String,
    GenError,
>)
    ensures
        is_text_result(r, serialized_arg_of(ctx@.structs, arg@, ty@)),
{
    match ty.generate_typescript(ctx) {
        Ok(mapped) => Ok(serialize_mapped(arg, mapped.as_str())),
        Err(e) => Err(e),
    }
}

/// The type `ty` inside `n` vectors.
pub open spec fn nested_vector(ty: TypeModel, n: nat) -> TypeModel
    decreases n,
{
    if n == 0 {
        ty
    } else {
        TypeModel::Vector(Box::new(nested_vector(ty, (n - 1) as nat)))
    }
}

/// The form `form` inside `n` read-only arrays.
pub open spec fn nested_array(form: Seq<char>, n: nat) -> Seq<char>
    decreases n,
{
    if n == 0 {
        form
    } else {
        "ReadonlyArray<"@ + nested_array(form, (n - 1) as nat) + ">"@
    }
}

/// The forms of the types that hold no other type are fixed, whatever the struct
/// table, the scope and the depth: exact forms name the wrapper types, loose forms
/// are `boolean`, `number` and `string`.
pub proof fn lemma_primitive_forms(table: Seq<StructModel>, scope: Seq<Seq<char>>, depth: nat)
    ensures
        type_expr(table, TypeModel::Bool, scope, true, depth) == Ok::<Seq<char>, GenError>(
            "boolean"@,
        ),
        type_expr(table, TypeModel::U8, scope, true, depth) == Ok::<Seq<char>, GenError>(
            "number"@,
        ),
        type_expr(table, TypeModel::U64, scope, true, depth) == Ok::<Seq<char>, GenError>(
            "p.U64"@,
        ),
        type_expr(table, TypeModel::U128, scope, true, depth) == Ok::<Seq<char>, GenError>(
            "p.U128"@,
        ),
        type_expr(table, TypeModel::Address, scope, true, depth) == Ok::<Seq<char>, GenError>(
            "p.RawAddress"@,
        ),
        type_expr(table, TypeModel::Signer, scope, true, depth) == Ok::<Seq<char>, GenError>(
            "p.RawSigner"@,
        ),
        type_expr(table, TypeModel::Bool, scope, false, depth) == Ok::<Seq<char>, GenError>(
            "boolean"@,
        ),
        type_expr(table, TypeModel::U8, scope, false, depth) == Ok::<Seq<char>, GenError>(
            "number"@,
        ),
        type_expr(table, TypeModel::U64, scope, false, depth) == Ok::<Seq<char>, GenError>(
            "string"@,
        ),
        type_expr(table, TypeModel::U128, scope, false, depth) == Ok::<Seq<char>, GenError>(
            "string"@,
        ),
        type_expr(table, TypeModel::Address, scope, false, depth) == Ok::<Seq<char>, GenError>(
            "string"@,
        ),
        type_expr(table, TypeModel::Signer, scope, false, depth) == Ok::<Seq<char>, GenError>(
            "string"@,
        ),
{
}

/// A vector of bytes is a byte string, however many vectors it stands in: its exact
/// form is the byte-string wrapper inside as many read-only arrays, its loose form
/// `string` inside as many.
pub proof fn lemma_byte_vector_forms(
    table: Seq<StructModel>,
    scope: Seq<Seq<char>>,
    typed: bool,
    depth: nat,
    n: nat,
)
    ensures
        type_expr(
            table,
            nested_vector(TypeModel::Vector(Box::new(TypeModel::U8)), n),
            scope,
            typed,
            depth,
        ) == Ok::<Seq<char>, GenError>(nested_array(wrapper_type("p.ByteString"@, typed), n)),
    decreases n,
{
    if n > 0 {
        lemma_byte_vector_forms(table, scope, typed, depth, (n - 1) as nat);
        let inner = nested_vector(TypeModel::Vector(Box::new(TypeModel::U8)), (n - 1) as nat);
        assert(inner is Vector);
    }
}

/// The serialiser of an argument is chosen by the exact form of its type alone: two
/// types of one form are serialised alike.
pub proof fn lemma_serializer_follows_form(
    table: Seq<StructModel>,
    arg: Seq<char>,
    first: TypeModel,
    second: TypeModel,
)
    requires
        type_expr(table, first, Seq::empty(), true, table.len()) == type_expr(
            table,
            second,
            Seq::empty(),
            true,
            table.len(),
        ),
    ensures
        serialized_arg_of(table, arg, first) == serialized_arg_of(table, arg, second),
{
}

/// A form that is not the one that ran out of depth stays the same at any greater
/// depth: the bound matters only where structs nest deeper than it.
pub proof fn lemma_deeper_is_same(
    table: Seq<StructModel>,
    ty: TypeModel,
    scope: Seq<Seq<char>>,
    typed: bool,
    depth: nat,
    deeper: nat,
)
    requires
        depth <= deeper,
        type_expr(table, ty, scope, typed, depth) != Err::<Seq<char>, GenError>(
            GenError::RecursiveStructReference,
        ),
    ensures
        type_expr(table, ty, scope, typed, deeper) == type_expr(table, ty, scope, typed, depth),
    decreases depth, type_size(ty),
{
    match ty {
        TypeModel::Vector(inner) => {
            if !(*inner is U8) {
                lemma_deeper_is_same(table, *inner, scope, typed, depth, deeper);
            }
        },
        TypeModel::Struct(name, args) => {
            if !is_standard_string(name) {
                lemma_deeper_types(table, args, scope, typed, depth, deeper);
                match type_exprs(table, args, scope, typed, depth) {
                    Err(_) => {},
                    Ok(bound) => {
                        lemma_deeper_struct(table, name, bound, typed, depth, deeper);
                    },
                }
            }
        },
        _ => {},
    }
}

/// `lemma_deeper_is_same` for the structural type of a struct.
pub proof fn lemma_deeper_struct(
    table: Seq<StructModel>,
    name: StructIdModel,
    scope: Seq<Seq<char>>,
    typed: bool,
    depth: nat,
    deeper: nat,
)
    requires
        depth <= deeper,
        struct_expr(table, name, scope, typed, depth) != Err::<Seq<char>, GenError>(
            GenError::RecursiveStructReference,
        ),
    ensures
        struct_expr(table, name, scope, typed, deeper) == struct_expr(
            table,
            name,
            scope,
            typed,
            depth,
        ),
    decreases depth, 0nat,
{
    match find_struct(table, name) {
        None => {},
        Some(def) => {
            if depth > 0 {
                lemma_deeper_fields(
                    table,
                    def.fields,
                    scope,
                    typed,
                    (depth - 1) as nat,
                    (deeper - 1) as nat,
                );
            }
        },
    }
}

/// `lemma_deeper_is_same` for the forms of several types.
pub proof fn lemma_deeper_types(
    table: Seq<StructModel>,
    tys: Seq<TypeModel>,
    scope: Seq<Seq<char>>,
    typed: bool,
    depth: nat,
    deeper: nat,
)
    requires
        depth <= deeper,
        type_exprs(table, tys, scope, typed, depth) != Err::<Seq<Seq<char>>, GenError>(
            GenError::RecursiveStructReference,
        ),
    ensures
        type_exprs(table, tys, scope, typed, deeper) == type_exprs(table, tys, scope, typed, depth),
    decreases depth, types_size(tys),
{
    if tys.len() > 0 {
        lemma_deeper_types(table, tys.drop_last(), scope, typed, depth, deeper);
        if type_exprs(table, tys.drop_last(), scope, typed, depth) is Ok {
            lemma_deeper_is_same(table, tys.last(), scope, typed, depth, deeper);
        }
    }
}

/// `lemma_deeper_is_same` for the entries of the fields of a struct.
pub proof fn lemma_deeper_fields(
    table: Seq<StructModel>,
    fields: Seq<FieldModel>,
    scope: Seq<Seq<char>>,
    typed: bool,
    depth: nat,
    deeper: nat,
)
    requires
        depth <= deeper,
        field_entries(table, fields, scope, typed, depth) != Err::<Seq<Seq<char>>, GenError>(
            GenError::RecursiveStructReference,
        ),
    ensures
        field_entries(table, fields, scope, typed, deeper) == field_entries(
            table,
            fields,
            scope,
            typed,
            depth,
        ),
    decreases depth, fields_size(fields),
{
    if fields.len() > 0 {
        lemma_deeper_fields(table, fields.drop_last(), scope, typed, depth, deeper);
        if field_entries(table, fields.drop_last(), scope, typed, depth) is Ok {
            lemma_deeper_is_same(table, fields.last().ty, scope, typed, depth, deeper);
        }
    }
}

/// Whether a struct stands for the string type of the standard library.
pub open spec fn is_standard_string(name: StructIdModel) -> bool {
    name.full_name() == "0x1::ASCII::String"@
}

/// Whether the form of the type needs the struct `name`: whether the type or one of
/// the types it holds is that struct.
pub open spec fn mentions(ty: TypeModel, name: StructIdModel) -> bool
    decreases ty,
{
    match ty {
        TypeModel::Vector(inner) => mentions(*inner, name),
        TypeModel::Struct(n, args) => !is_standard_string(n) && (n == name || mentions_any(
            args,
            name,
        )),
        _ => false,
    }
}

/// Whether the form of one of the types needs the struct `name`.
pub open spec fn mentions_any(tys: Seq<TypeModel>, name: StructIdModel) -> bool
    decreases tys,
{
    if tys.len() == 0 {
        false
    } else {
        mentions_any(tys.drop_last(), name) || mentions(tys.last(), name)
    }
}

/// Whether the type of one of the fields needs the struct `name`.
pub open spec fn fields_mention(fields: Seq<FieldModel>, name: StructIdModel) -> bool
    decreases fields.len(),
{
    if fields.len() == 0 {
        false
    } else {
        fields_mention(fields.drop_last(), name) || mentions(fields.last().ty, name)
    }
}

/// Whether `rank` orders the structs of the table from the inside out: each struct
/// ranks below the length of the table, and above every struct of the table that its
/// fields need. Where no struct holds itself, the length of the longest chain of
/// structs inside a struct is such a ranking.
pub open spec fn ranked(table: Seq<StructModel>, rank: spec_fn(StructIdModel) -> nat) -> bool {
    &&& forall|i: int| 0 <= i < table.len() ==> rank((#[trigger] table[i]).name) < table.len()
    &&& forall|i: int, name: StructIdModel|
        #![trigger fields_mention(table[i].fields, name)]
        0 <= i < table.len() && fields_mention(table[i].fields, name) && find_struct(
            table,
            name,
        ) is Some ==> rank(name) < rank(table[i].name)
}

/// The struct that `find_struct` gives stands in the table and has the identifier.
pub proof fn lemma_found_struct(table: Seq<StructModel>, name: StructIdModel)
    requires
        find_struct(table, name) is Some,
    ensures
        exists|i: int|
            0 <= i < table.len() && #[trigger] table[i] == find_struct(table, name)->0
                && table[i].name == name,
    decreases table.len(),
{
    if table[0].name == name {
        assert(table[0] == find_struct(table, name)->0);
    } else {
        lemma_found_struct(table.drop_first(), name);
        let i = choose|i: int|
            0 <= i < table.drop_first().len() && #[trigger] table.drop_first()[i] == find_struct(
                table.drop_first(),
                name,
            )->0 && table.drop_first()[i].name == name;
        assert(table[i + 1] == table.drop_first()[i]);
    }
}

/// Where every struct that a type needs ranks below the depth, the form of the type
/// does not run out of depth.
pub proof fn lemma_ranked_type(
    table: Seq<StructModel>,
    rank: spec_fn(StructIdModel) -> nat,
    ty: TypeModel,
    scope: Seq<Seq<char>>,
    typed: bool,
    depth: nat,
)
    requires
        ranked(table, rank),
        forall|name: StructIdModel|
            mentions(ty, name) && find_struct(table, name) is Some ==> rank(name) < depth,
    ensures
        type_expr(table, ty, scope, typed, depth) != Err::<Seq<char>, GenError>(
            GenError::RecursiveStructReference,
        ),
    decreases depth, type_size(ty),
{
    match ty {
        TypeModel::Vector(inner) => {
            if !(*inner is U8) {
                assert forall|name: StructIdModel|
                    mentions(*inner, name) && find_struct(table, name) is Some implies rank(name)
                    < depth by {
                    assert(mentions(ty, name));
                }
                lemma_ranked_type(table, rank, *inner, scope, typed, depth);
            }
        },
        TypeModel::Struct(n, args) => {
            if !is_standard_string(n) {
                assert forall|name: StructIdModel|
                    mentions_any(args, name) && find_struct(table, name) is Some implies rank(name)
                    < depth by {
                    assert(mentions(ty, name));
                }
                lemma_ranked_types(table, rank, args, scope, typed, depth);
                match type_exprs(table, args, scope, typed, depth) {
                    Err(_) => {},
                    Ok(bound) => {
                        assert(mentions(ty, n));
                        lemma_ranked_struct(table, rank, n, bound, typed, depth);
                    },
                }
            }
        },
        _ => {},
    }
}

/// `lemma_ranked_type` for the forms of several types.
pub proof fn lemma_ranked_types(
    table: Seq<StructModel>,
    rank: spec_fn(StructIdModel) -> nat,
    tys: Seq<TypeModel>,
    scope: Seq<Seq<char>>,
    typed: bool,
    depth: nat,
)
    requires
        ranked(table, rank),
        forall|name: StructIdModel|
            mentions_any(tys, name) && find_struct(table, name) is Some ==> rank(name) < depth,
    ensures
        type_exprs(table, tys, scope, typed, depth) != Err::<Seq<Seq<char>>, GenError>(
            GenError::RecursiveStructReference,
        ),
    decreases depth, types_size(tys),
{
    if tys.len() > 0 {
        assert forall|name: StructIdModel|
            mentions_any(tys.drop_last(), name) && find_struct(table, name) is Some implies rank(
            name,
        ) < depth by {
            assert(mentions_any(tys, name));
        }
        lemma_ranked_types(table, rank, tys.drop_last(), scope, typed, depth);
        assert forall|name: StructIdModel|
            mentions(tys.last(), name) && find_struct(table, name) is Some implies rank(name)
            < depth by {
            assert(mentions_any(tys, name));
        }
        lemma_ranked_type(table, rank, tys.last(), scope, typed, depth);
    }
}

/// `lemma_ranked_type` for the structural type of a struct.
pub proof fn lemma_ranked_struct(
    table: Seq<StructModel>,
    rank: spec_fn(StructIdModel) -> nat,
    name: StructIdModel,
    scope: Seq<Seq<char>>,
    typed: bool,
    depth: nat,
)
    requires
        ranked(table, rank),
        find_struct(table, name) is Some ==> rank(name) < depth,
    ensures
        struct_expr(table, name, scope, typed, depth) != Err::<Seq<char>, GenError>(
            GenError::RecursiveStructReference,
        ),
    decreases depth, 0nat,
{
    match find_struct(table, name) {
        None => {},
        Some(def) => {
            lemma_found_struct(table, name);
            let i = choose|i: int|
                0 <= i < table.len() && #[trigger] table[i] == find_struct(table, name)->0
                    && table[i].name == name;
            assert forall|inner: StructIdModel|
                fields_mention(def.fields, inner) && find_struct(table, inner) is Some implies rank(
                inner,
            ) < depth - 1 by {
                assert(fields_mention(table[i].fields, inner));
            }
            lemma_ranked_fields(table, rank, def.fields, scope, typed, (depth - 1) as nat);
        },
    }
}

/// `lemma_ranked_type` for the entries of the fields of a struct.
pub proof fn lemma_ranked_fields(
    table: Seq<StructModel>,
    rank: spec_fn(StructIdModel) -> nat,
    fields: Seq<FieldModel>,
    scope: Seq<Seq<char>>,
    typed: bool,
    depth: nat,
)
    requires
        ranked(table, rank),
        forall|name: StructIdModel|
            fields_mention(fields, name) && find_struct(table, name) is Some ==> rank(name) < depth,
    ensures
        field_entries(table, fields, scope, typed, depth) != Err::<Seq<Seq<char>>, GenError>(
            GenError::RecursiveStructReference,
        ),
    decreases depth, fields_size(fields),
{
    if fields.len() > 0 {
        assert forall|name: StructIdModel|
            fields_mention(fields.drop_last(), name) && find_struct(table, name) is Some implies rank(
            name,
        ) < depth by {
            assert(fields_mention(fields, name));
        }
        lemma_ranked_fields(table, rank, fields.drop_last(), scope, typed, depth);
        assert forall|name: StructIdModel|
            mentions(fields.last().ty, name) && find_struct(table, name) is Some implies rank(name)
            < depth by {
            assert(fields_mention(fields, name));
        }
        lemma_ranked_type(table, rank, fields.last().ty, scope, typed, depth);
    }
}

/// In a table whose structs can be ranked from the inside out, no form runs out of
/// depth: the depth that `generate_idl_type_with_type_args` allows, the length of
/// the table, is enough for every type.
pub proof fn lemma_ranked_table_expands(
    table: Seq<StructModel>,
    rank: spec_fn(StructIdModel) -> nat,
    ty: TypeModel,
    scope: Seq<Seq<char>>,
    typed: bool,
)
    requires
        ranked(table, rank),
    ensures
        type_expr(table, ty, scope, typed, table.len()) != Err::<Seq<char>, GenError>(
            GenError::RecursiveStructReference,
        ),
{
    assert forall|name: StructIdModel|
        mentions(ty, name) && find_struct(table, name) is Some implies rank(name)
        < table.len() by {
        lemma_found_struct(table, name);
        let i = choose|i: int|
            0 <= i < table.len() && #[trigger] table[i] == find_struct(table, name)->0
                && table[i].name == name;
        assert(rank(table[i].name) < table.len());
    }
    lemma_ranked_type(table, rank, ty, scope, typed, table.len());
}

/// The entries of the fields of a struct come one for each field and in the order of
/// the fields: each is the entry of its field with the form of the field's type.
pub proof fn lemma_field_entries_in_order(
    table: Seq<StructModel>,
    fields: Seq<FieldModel>,
    scope: Seq<Seq<char>>,
    typed: bool,
    depth: nat,
)
    requires
        field_entries(table, fields, scope, typed, depth) is Ok,
    ensures
        field_entries(table, fields, scope, typed, depth)->Ok_0.len() == fields.len(),
        forall|i: int|
            0 <= i < fields.len() ==> field_expr(table, #[trigger] fields[i], scope, typed, depth)
                == Ok::<Seq<char>, GenError>(
                field_entries(table, fields, scope, typed, depth)->Ok_0[i],
            ),
    decreases fields.len(),
{
    if fields.len() > 0 {
        lemma_field_entries_in_order(table, fields.drop_last(), scope, typed, depth);
        assert forall|i: int| 0 <= i < fields.len() implies field_expr(
            table,
            #[trigger] fields[i],
            scope,
            typed,
            depth,
        ) == Ok::<Seq<char>, GenError>(
            field_entries(table, fields, scope, typed, depth)->Ok_0[i],
        ) by {
            if i < fields.len() - 1 {
                assert(fields[i] == fields.drop_last()[i]);
            }
        }
    }
}

} // verus!
