//! The TypeScript declaration of a struct.
use crate::error::GenError;
use crate::format::{doc_comment_opt, gen_doc_string_opt, indent_text};
use crate::idl::{
    type_param_models, IDLStruct, IDLType, IDLTypeParam, PackageModel, StructModel, TypeModel,
    TypeParamModel,
};
use crate::idl_type::{field_entries, generate_field_with_type_args, lemma_field_entries_fail};
use crate::text::{concat2, concat3, join, join_strings, str_eq, strs, trim};
use crate::{is_code_result, CodeText, Codegen, CodegenContext};
use vstd::prelude::*;
use vstd::string::*;

verus! {

/// Whether a struct has the shape that stands for a struct without fields: one field,
/// named `dummy_field`, of type `bool`.
pub open spec fn is_marker_struct(s: StructModel) -> bool {
    &&& s.fields.len() == 1
    &&& s.fields[0].name == "dummy_field"@
    &&& s.fields[0].ty == TypeModel::Bool
}

/// The names that the fields of a struct see for its type parameters: the parameters
/// that are not phantom, in their order, each behind an underscore.
pub open spec fn generic_scope(params: Seq<TypeParamModel>) -> Seq<Seq<char>>
    decreases params.len(),
{
    if params.len() == 0 {
        Seq::empty()
    } else if params.last().is_phantom {
        generic_scope(params.drop_last())
    } else {
        generic_scope(params.drop_last()).push("_"@ + params.last().name)
    }
}

/// Each name with `unknown` as its default.
pub open spec fn generic_defaults(scope: Seq<Seq<char>>) -> Seq<Seq<char>> {
    Seq::new(scope.len(), |i: int| scope[i] + " = unknown"@)
}

/// The list of type parameters of a declaration: nothing where every parameter is
/// phantom, else the others between angle brackets.
pub open spec fn generics_text(params: Seq<TypeParamModel>) -> Seq<char> {
    let scope = generic_scope(params);
    if scope.len() == 0 {
        Seq::empty()
    } else {
        "<"@ + join(generic_defaults(scope), ", "@) + ">"@
    }
}

/// The entries of the fields of a struct, in the exact forms of their types and in
/// the scope of the struct's own type parameters.
pub open spec fn struct_fields_text(table: Seq<StructModel>, s: StructModel) -> Result<
    Seq<char>,
    GenError,
> {
    match field_entries(table, s.fields, generic_scope(s.type_params), true, table.len()) {
        Ok(entries) => Ok(trim(join(entries, "\n"@))),
        Err(e) => Err(e),
    }
}

/// The declaration of a struct: nothing for a marker struct, else its documentation,
/// its name with `Data` behind it, its type parameters and its fields in their order.
pub open spec fn struct_text(table: Seq<StructModel>, s: StructModel) -> Result<
    Seq<char>,
    GenError,
> {
    if is_marker_struct(s) {
        Ok(Seq::empty())
    } else {
        match struct_fields_text(table, s) {
            Ok(fields) => Ok(
                doc_comment_opt(s.doc) + "export type "@ + s.name.name + "Data"@ + generics_text(
                    s.type_params,
                ) + " = {\n"@ + indent_text(fields) + "\n};"@,
            ),
            Err(e) => Err(e),
        }
    }
}

/// The names that the fields of a struct see for its type parameters.
pub fn struct_scope(params: &Vec<IDLTypeParam>) -> (r: Vec<String>)
    ensures
        strs(r@) == generic_scope(type_param_models(params@)),
{
    let ghost models = type_param_models(params@);
    let mut out: Vec<String> = Vec::new();
    let mut i: usize = 0;
    proof {
        assert(strs(out@) =~= Seq::<Seq<char>>::empty());
    }
    while i < params.len()
        invariant
            i <= params@.len(),
            models == type_param_models(params@),
            strs(out@) == generic_scope(models.take(i as int)),
        decreases params.len() - i,
    {
        proof {
            assert(models.take(i + 1).drop_last() =~= models.take(i as int));
            assert(models.take(i + 1).last() == params@[i as int]@);
        }
        if !params[i].is_phantom {
            let name = concat2("_", params[i].name.as_str());
            proof {
                assert(strs(out@.push(name)) =~= strs(out@).push(name@));
            }
            out.push(name);
        }
        i = i + 1;
    }
    proof {
        assert(models.take(params@.len() as int) =~= models);
    }
    out
}

/// The list of type parameters of a declaration.
pub fn struct_generics(params: &Vec<IDLTypeParam>) -> (r: String)
    ensures
        r@ == generics_text(type_param_models(params@)),
{
    let scope = struct_scope(params);
    if scope.len() == 0 {
        return String::new();
    }
    let mut defaults: Vec<String> = Vec::new();
    let mut i: usize = 0;
    while i < scope.len()
        invariant
            i <= scope@.len(),
            defaults@.len() == i,
            forall|k: int| 0 <= k < i ==> (#[trigger] defaults@[k])@ == scope@[k]@ + " = unknown"@,
        decreases scope.len() - i,
    {
        defaults.push(concat2(scope[i].as_str(), " = unknown"));
        i = i + 1;
    }
    proof {
        assert(strs(defaults@) =~= generic_defaults(strs(scope@)));
    }
    let list = join_strings(&defaults, ", ");
    concat3("<", list.as_str(), ">")
}

/// The entries of the fields of a struct.
pub fn generate_struct_fields(s: &IDLStruct, ctx: &CodegenContext) -> (r: Result<
    CodeText,
    GenError,
>)
    ensures
        is_code_result(r, struct_fields_text(ctx@.structs, s@)),
{
    let scope = struct_scope(&s.type_params);
    let ghost fields = s@.fields;
    let mut entries: Vec<String> = Vec::new();
    let mut i: usize = 0;
    proof {
        assert(strs(entries@) =~= Seq::<Seq<char>>::empty());
    }
    while i < s.fields.len()
        invariant
            i <= s.fields@.len(),
            fields == s@.fields,
            strs(scope@) == generic_scope(s@.type_params),
            field_entries(ctx@.structs, fields.take(i as int), strs(scope@), true, ctx@.structs.len())
                == Ok::<Seq<Seq<char>>, GenError>(strs(entries@)),
        decreases s.fields.len() - i,
    {
        proof {
            assert(fields.take(i + 1).drop_last() =~= fields.take(i as int));
            assert(fields.take(i + 1).last() == s.fields@[i as int]@);
        }
        match generate_field_with_type_args(&s.fields[i], ctx, &scope, true) {
            Ok(t) => {
                proof {
                    assert(strs(entries@.push(t)) =~= strs(entries@).push(t@));
                }
                entries.push(t);
            },
            Err(e) => {
                proof {
                    lemma_field_entries_fail(
                        ctx@.structs,
                        fields,
                        strs(scope@),
                        true,
                        ctx@.structs.len(),
                        i + 1,
                    );
                }
                return Err(e);
            },
        }
        i = i + 1;
    }
    proof {
        assert(fields.take(s.fields@.len() as int) =~= fields);
    }
    let joined = join_strings(&entries, "\n");
    Ok(CodeText::new(joined.as_str()).trim())
}

/// Whether a struct has the shape that stands for a struct without fields.
pub fn is_marker(s: &IDLStruct) -> (r: bool)
    ensures
        r == is_marker_struct(s@),
{
    if s.fields.len() != 1 {
        return false;
    }
    if !str_eq(s.fields[0].name.as_str(), "dummy_field") {
        return false;
    }
    match s.fields[0].ty {
        IDLType::Bool => true,
        _ => false,
    }
}

impl Codegen for IDLStruct {
    open spec fn typescript(&self, pkg: PackageModel) -> Result<Seq<char>, GenError> {
        struct_text(pkg.structs, self@)
    }

    fn generate_typescript(&self, ctx: &CodegenContext) -> (r: Result<String, GenError>) {
        if is_marker(self) {
            return Ok(String::new());
        }
        let generics = struct_generics(&self.type_params);
        let fields = match generate_struct_fields(self, ctx) {
            Ok(f) => f.indent(),
            Err(e) => {
                return Err(e);
            },
        };
        let mut s = gen_doc_string_opt(&self.doc);
        s.append("export type ");
        s.append(self.name.name.as_str());
        s.append("Data");
        s.append(generics.as_str());
        s.append(" = {\n");
        s.append(fields.as_str());
        s.append("\n};");
        Ok(s)
    }
}

/// A marker struct has no declaration: its text is empty.
pub proof fn lemma_marker_struct_is_empty(table: Seq<StructModel>, s: StructModel)
    requires
        is_marker_struct(s),
    ensures
        struct_text(table, s) == Ok::<Seq<char>, GenError>(Seq::empty()),
{
}

/// A phantom type parameter is in no list of type parameters: with one put among the
/// parameters at any place, the scope and the list of the declaration stay the same.
pub proof fn lemma_phantom_is_left_out(params: Seq<TypeParamModel>, i: int, phantom: TypeParamModel)
    requires
        0 <= i <= params.len(),
        phantom.is_phantom,
    ensures
        generic_scope(params.insert(i, phantom)) == generic_scope(params),
        generics_text(params.insert(i, phantom)) == generics_text(params),
    decreases params.len() - i,
{
    let with = params.insert(i, phantom);
    if i == params.len() {
        assert(with.drop_last() =~= params);
    } else {
        lemma_phantom_is_left_out(params.drop_last(), i, phantom);
        assert(with.drop_last() =~= params.drop_last().insert(i, phantom));
        assert(with.last() == params.last());
    }
}

/// Of the two parameters `T` and phantom `U`, the list of the declaration holds `T`
/// alone.
pub proof fn lemma_one_of_two_is_phantom(t: Seq<char>, u: Seq<char>)
    ensures
        generic_scope(
            seq![
                TypeParamModel { name: t, is_phantom: false },
                TypeParamModel { name: u, is_phantom: true },
            ],
        ) == seq!["_"@ + t],
        generics_text(
            seq![
                TypeParamModel { name: t, is_phantom: false },
                TypeParamModel { name: u, is_phantom: true },
            ],
        ) == "<"@ + ("_"@ + t + " = unknown"@) + ">"@,
{
    let first = TypeParamModel { name: t, is_phantom: false };
    let both = seq![first, TypeParamModel { name: u, is_phantom: true }];
    assert(both.drop_last() =~= seq![first]);
    assert(seq![first].drop_last() =~= Seq::<TypeParamModel>::empty());
    reveal_with_fuel(generic_scope, 3);
    assert(generic_scope(both) =~= seq!["_"@ + t]);
    assert(generic_defaults(seq!["_"@ + t]) =~= seq!["_"@ + t + " = unknown"@]);
}

} // verus!
