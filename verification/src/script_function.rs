//! The payload types and the payload builder of a script function.
use crate::case::{pascal_case_of, to_pascal_case};
use crate::error::GenError;
use crate::format::{doc_comment_opt, gen_doc_string_opt, indent, indent_text};
use crate::idl::{
    argument_models, ArgumentModel, FunctionModel, IDLArgument, IDLModule, IDLScriptFunction,
    ModuleIdModel, PackageModel, StructModel,
};
use crate::idl_type::{
    generate_idl_type_with_type_args, serialize_arg, serialized_arg_of, type_expr,
};
use crate::text::{
    concat2, concat3, join, join_strings, prefixed, strs, suffixed, with_prefix, with_suffix,
};
use crate::{
    all_texts, documented, fields_export_text, is_code_result, joined_texts,
    lemma_all_texts_fail, lemma_all_typescript_is, CodeText, Codegen, CodegenContext,
};
use vstd::prelude::*;
use vstd::string::*;

verus! {

/// The model of a `ScriptFunctionType`: the function, the module that holds it, and
/// the name of its payload type.
pub struct ScriptFunctionModel {
    pub payload_name: Seq<char>,
    pub module_id: ModuleIdModel,
    pub script: FunctionModel,
}

impl ScriptFunctionModel {
    /// The module and the name of the function, as in `0x1::Coin::transfer`.
    pub open spec fn full_name(self) -> Seq<char> {
        self.module_id.full_name() + "::"@ + self.script.name
    }

    /// The link to the builder of the function, for documentation.
    pub open spec fn doc_link(self) -> Seq<char> {
        "{@link entry."@ + self.script.name + "}"@
    }

    /// The name of the type of what the builder takes.
    pub open spec fn payload_args_type_name(self) -> Seq<char> {
        self.payload_name + "Args"@
    }

    /// Whether the builder takes anything: whether the function has an argument or a
    /// type argument.
    pub open spec fn should_render_payload_struct(self) -> bool {
        !(self.script.args.len() == 0 && self.script.ty_args.len() == 0)
    }
}

/// The entry of an argument in the type of what the builder takes: its documentation,
/// its name and the loose form of its type.
pub open spec fn argument_text(table: Seq<StructModel>, arg: ArgumentModel) -> Result<
    Seq<char>,
    GenError,
> {
    match type_expr(table, arg.ty, Seq::empty(), false, table.len()) {
        Ok(t) => Ok(doc_comment_opt(arg.doc) + arg.name + ": "@ + t + ";"@),
        Err(e) => Err(e),
    }
}

/// `argument_text` for the given struct table.
pub open spec fn argument_text_fn(table: Seq<StructModel>) -> spec_fn(ArgumentModel) -> Result<
    Seq<char>,
    GenError,
> {
    |arg: ArgumentModel| argument_text(table, arg)
}

/// The element of an argument in the tuple of the payload's arguments: its name and
/// the loose form of its type.
pub open spec fn argument_element(table: Seq<StructModel>, arg: ArgumentModel) -> Result<
    Seq<char>,
    GenError,
> {
    match type_expr(table, arg.ty, Seq::empty(), false, table.len()) {
        Ok(t) => Ok(arg.name + ": "@ + t),
        Err(e) => Err(e),
    }
}

/// `argument_element` for the given struct table.
pub open spec fn argument_element_fn(table: Seq<StructModel>) -> spec_fn(ArgumentModel) -> Result<
    Seq<char>,
    GenError,
> {
    |arg: ArgumentModel| argument_element(table, arg)
}

/// The expression that serialises an argument taken from the record `args`.
pub open spec fn argument_serialized(table: Seq<StructModel>, arg: ArgumentModel) -> Result<
    Seq<char>,
    GenError,
> {
    serialized_arg_of(table, "args."@ + arg.name, arg.ty)
}

/// `argument_serialized` for the given struct table.
pub open spec fn argument_serialized_fn(table: Seq<StructModel>) -> spec_fn(
    ArgumentModel,
) -> Result<Seq<char>, GenError> {
    |arg: ArgumentModel| argument_serialized(table, arg)
}

/// The entries of the record of type arguments: each name with a string slot.
pub open spec fn type_args_text(names: Seq<Seq<char>>) -> Seq<char> {
    join(suffixed(names, ": string;"@), "\n"@)
}

/// The record `name` with the given entries, as a field of the type of what the
/// builder takes.
pub open spec fn record_field(name: Seq<char>, entries: Seq<char>) -> Seq<char> {
    indent_text(name + ": {\n"@ + indent_text(entries) + "\n};\n"@) + "\n"@
}

/// The type of what the builder of a function takes: the record of its arguments,
/// where it has any, and the record of its type arguments, where it has any.
pub open spec fn payload_args_text(table: Seq<StructModel>, f: ScriptFunctionModel) -> Result<
    Seq<char>,
    GenError,
> {
    let type_args = if f.script.ty_args.len() == 0 {
        Seq::empty()
    } else {
        record_field("typeArgs"@, type_args_text(f.script.ty_args))
    };
    let docs = "Payload arguments for "@ + f.doc_link() + "."@;
    if f.script.args.len() == 0 {
        Ok(documented(docs, fields_export_text(f.payload_args_type_name(), type_args)))
    } else {
        match joined_texts(f.script.args, argument_text_fn(table), "\n"@) {
            Err(e) => Err(e),
            Ok(entries) => Ok(
                documented(
                    docs,
                    fields_export_text(
                        f.payload_args_type_name(),
                        record_field("args"@, entries) + type_args,
                    ),
                ),
            ),
        }
    }
}

/// The documentation of the payload type of a function.
pub open spec fn entry_payload_docs(f: ScriptFunctionModel) -> Seq<char> {
    "Script function payload for `"@ + f.full_name() + "`."@ + match f.script.doc {
        Some(d) => "\n\n"@ + d,
        None => Seq::empty(),
    }
}

/// The fields of the payload type of a function, given the tuple of its arguments.
pub open spec fn entry_payload_fields(f: ScriptFunctionModel, arguments: Seq<char>) -> Seq<char> {
    indent_text(
        "readonly type: \"script_function_payload\";"@ + "\n"@ + "readonly function: \""@
            + f.full_name() + "\";"@ + "\n"@ + "readonly arguments: ["@ + arguments + "];"@ + "\n"@
            + "readonly type_arguments: ["@ + join(suffixed(f.script.ty_args, ": string"@), ", "@)
            + "];"@,
    ) + "\n"@
}

/// The payload type of a function: the kind of payload, the full name of the
/// function, and the tuples of its arguments, in loose forms, and type arguments.
pub open spec fn entry_payload_text(table: Seq<StructModel>, f: ScriptFunctionModel) -> Result<
    Seq<char>,
    GenError,
> {
    match all_texts(f.script.args, argument_element_fn(table)) {
        Err(e) => Err(e),
        Ok(elements) => Ok(
            documented(
                entry_payload_docs(f),
                fields_export_text(f.payload_name, entry_payload_fields(f, join(elements, ", "@))),
            ),
        ),
    }
}

/// What the builder of a function takes apart: the records that the function has.
pub open spec fn builder_params(f: ScriptFunctionModel) -> Seq<char> {
    if !f.should_render_payload_struct() {
        Seq::empty()
    } else {
        "{ "@ + (if f.script.args.len() > 0 && f.script.ty_args.len() > 0 {
            "args, typeArgs"@
        } else if f.script.args.len() > 0 {
            "args"@
        } else {
            "typeArgs"@
        }) + " }: mod."@ + f.payload_args_type_name()
    }
}

/// The builder of a function: from the records of arguments and type arguments to
/// the payload, the type arguments in their order, the arguments in their order and
/// each serialised as its exact form asks.
pub open spec fn builder_text(table: Seq<StructModel>, f: ScriptFunctionModel) -> Result<
    Seq<char>,
    GenError,
> {
    match all_texts(f.script.args, argument_serialized_fn(table)) {
        Err(e) => Err(e),
        Ok(arguments) => Ok(
            doc_comment_opt(f.script.doc) + "export const "@ + f.script.name + " = ("@
                + builder_params(f) + "): payloads."@ + f.payload_name
                + " => ({\n  type: \"script_function_payload\",\n  function: \""@ + f.full_name()
                + "\",\n  type_arguments: ["@ + join(prefixed(f.script.ty_args, "typeArgs."@), ", "@)
                + "],\n  arguments: ["@ + join(arguments, ", "@) + "],\n});"@,
        ),
    }
}

impl Codegen for IDLArgument {
    open spec fn typescript(&self, pkg: PackageModel) -> Result<Seq<char>, GenError> {
        argument_text(pkg.structs, self@)
    }

    fn generate_typescript(&self, ctx: &CodegenContext) -> (r: Result<String, GenError>) {
        let scope: Vec<String> = Vec::new();
        proof {
            assert(strs(scope@) =~= Seq::<Seq<char>>::empty());
        }
        match generate_idl_type_with_type_args(&self.ty, ctx, &scope, false) {
            Err(e) => Err(e),
            Ok(t) => {
                let mut s = gen_doc_string_opt(&self.doc);
                s.append(self.name.as_str());
                s.append(": ");
                s.append(t.as_str());
                s.append(";");
                Ok(s)
            },
        }
    }
}

/// The entries of the record of type arguments.
pub fn script_fn_type_args(args: &Vec<String>) -> (r: CodeText)
    ensures
        r@ == type_args_text(strs(args@)),
{
    let entries = with_suffix(args, ": string;");
    CodeText::new(join_strings(&entries, "\n").as_str())
}

/// A script function of a module, with the name of its payload type.
pub struct ScriptFunctionType<'info> {
    payload_name: String,
    module: &'info IDLModule,
    script: &'info IDLScriptFunction,
}

impl<'info> View for ScriptFunctionType<'info> {
    type V = ScriptFunctionModel;

    closed spec fn view(&self) -> ScriptFunctionModel {
        ScriptFunctionModel {
            payload_name: self.payload_name@,
            module_id: self.module@.module_id,
            script: self.script@,
        }
    }
}

/// The type of what the builder of a script function takes.
pub struct ScriptFunctionPayloadStruct<'info>(&'info ScriptFunctionType<'info>);

impl<'info> View for ScriptFunctionPayloadStruct<'info> {
    type V = ScriptFunctionModel;

    closed spec fn view(&self) -> ScriptFunctionModel {
        self.0@
    }
}

/// The record `name` with the given entries, which are indented already.
fn record(name: &str, inner: &str) -> (r: String)
    ensures
        r@ == indent_text(name@ + ": {\n"@ + inner@ + "\n};\n"@) + "\n"@,
{
    let mut s = String::from_str(name);
    s.append(": {\n");
    s.append(inner);
    s.append("\n};\n");
    let mut out = indent(s.as_str());
    out.append("\n");
    out
}

impl<'info> ScriptFunctionPayloadStruct<'info> {
    /// The entries of the arguments, indented.
    fn args_inline(&self, ctx: &CodegenContext) -> (r: Result<CodeText, GenError>)
        ensures
            match joined_texts(self@.script.args, argument_text_fn(ctx@.structs), "\n"@) {
                Ok(t) => r matches Ok(s) && s@ == indent_text(t),
                Err(e) => r matches Err(f) && f == e,
            },
    {
        proof {
            lemma_all_typescript_is(
                self.0.script.args@,
                ctx@,
                self@.script.args,
                argument_text_fn(ctx@.structs),
            );
        }
        match ctx.try_join_with_separator(&self.0.script.args, "\n") {
            Ok(t) => Ok(t.indent()),
            Err(e) => Err(e),
        }
    }

    /// The entries of the type arguments, indented.
    fn type_args_inline(&self) -> (r: CodeText)
        ensures
            r@ == indent_text(type_args_text(self@.script.ty_args)),
    {
        script_fn_type_args(&self.0.script.ty_args).indent()
    }
}

impl<'info> Codegen for ScriptFunctionPayloadStruct<'info> {
    open spec fn typescript(&self, pkg: PackageModel) -> Result<Seq<char>, GenError> {
        payload_args_text(pkg.structs, self@)
    }

    fn generate_typescript(&self, ctx: &CodegenContext) -> (r: Result<String, GenError>) {
        let args = if self.0.script.args.len() == 0 {
            String::new()
        } else {
            match self.args_inline(ctx) {
                Ok(entries) => record("args", entries.as_str()),
                Err(e) => {
                    return Err(e);
                },
            }
        };
        let type_args = if self.0.script.ty_args.len() == 0 {
            String::new()
        } else {
            record("typeArgs", self.type_args_inline().as_str())
        };
        let fields = concat2(args.as_str(), type_args.as_str());
        let docs = concat3("Payload arguments for ", self.0.doc_link().as_str(), ".");
        let name = self.0.payload_args_type_name();
        proof {
            if self.0.script.args@.len() == 0 {
                assert(fields@ =~= type_args@);
            }
        }
        Ok(
            CodeText::new_fields_export(name.as_str(), fields.as_str()).docs(
                docs.as_str(),
            ).to_string(),
        )
    }
}

impl<'info> ScriptFunctionType<'info> {
    /// The script function `script` of `module`. The name of its payload type is the
    /// name of the function in Pascal case.
    pub fn new(module: &'info IDLModule, script: &'info IDLScriptFunction) -> (r: Self)
        ensures
            r@ == (ScriptFunctionModel {
                payload_name: pascal_case_of(script@.name),
                module_id: module@.module_id,
                script: script@,
            }),
    {
        let payload_name = to_pascal_case(script.name.as_str());
        ScriptFunctionType { payload_name, module, script }
    }

    /// The name of the function.
    pub fn name(&self) -> (r: &str)
        ensures
            r@ == self@.script.name,
    {
        self.script.name.as_str()
    }

    /// The link to the builder of the function, for documentation.
    pub fn doc_link(&self) -> (r: String)
        ensures
            r@ == self@.doc_link(),
    {
        concat3("{@link entry.", self.script.name.as_str(), "}")
    }

    /// The type of what the builder of the function takes.
    pub fn payload(&'info self) -> (r: ScriptFunctionPayloadStruct<'info>)
        ensures
            r@ == self@,
    {
        ScriptFunctionPayloadStruct(self)
    }

    /// The payload type of the function.
    pub fn generate_entry_payload_struct(&self, ctx: &CodegenContext) -> (r: Result<
        CodeText,
        GenError,
    >)
        ensures
            is_code_result(r, entry_payload_text(ctx@.structs, self@)),
    {
        let scope: Vec<String> = Vec::new();
        let ghost models = self@.script.args;
        let ghost f = argument_element_fn(ctx@.structs);
        let mut elements: Vec<String> = Vec::new();
        let mut i: usize = 0;
        proof {
            assert(strs(scope@) =~= Seq::<Seq<char>>::empty());
            assert(strs(elements@) =~= Seq::<Seq<char>>::empty());
        }
        while i < self.script.args.len()
            invariant
                i <= self.script.args@.len(),
                models == argument_models(self.script.args@),
                f == argument_element_fn(ctx@.structs),
                strs(scope@) == Seq::<Seq<char>>::empty(),
                all_texts(models.take(i as int), f) == Ok::<Seq<Seq<char>>, GenError>(
                    strs(elements@),
                ),
            decreases self.script.args.len() - i,
        {
            proof {
                assert(models.take(i + 1).drop_last() =~= models.take(i as int));
                assert(models.take(i + 1).last() == self.script.args@[i as int]@);
            }
            let a = &self.script.args[i];
            match generate_idl_type_with_type_args(&a.ty, ctx, &scope, false) {
                Ok(t) => {
                    let element = concat3(a.name.as_str(), ": ", t.as_str());
                    proof {
                        assert(strs(elements@.push(element)) =~= strs(elements@).push(element@));
                    }
                    elements.push(element);
                },
                Err(e) => {
                    proof {
                        lemma_all_texts_fail(models, f, i + 1);
                    }
                    return Err(e);
                },
            }
            i = i + 1;
        }
        proof {
            assert(models.take(self.script.args@.len() as int) =~= models);
        }
        let arguments = join_strings(&elements, ", ");
        let type_arguments = join_strings(&with_suffix(&self.script.ty_args, ": string"), ", ");
        let full_name = self.full_name();
        let mut fields = String::from_str("readonly type: \"script_function_payload\";");
        fields.append("\n");
        fields.append("readonly function: \"");
        fields.append(full_name.as_str());
        fields.append("\";");
        fields.append("\n");
        fields.append("readonly arguments: [");
        fields.append(arguments.as_str());
        fields.append("];");
        fields.append("\n");
        fields.append("readonly type_arguments: [");
        fields.append(type_arguments.as_str());
        fields.append("];");
        let body = concat2(indent(fields.as_str()).as_str(), "\n");
        let mut docs = concat3("Script function payload for `", full_name.as_str(), "`.");
        let more = match &self.script.doc {
            Some(d) => concat2("\n\n", d.as_str()),
            None => String::new(),
        };
        docs.append(more.as_str());
        Ok(CodeText::new_fields_export(self.payload_name.as_str(), body.as_str()).docs(docs.as_str()))
    }

    /// The module and the name of the function, as in `0x1::Coin::transfer`.
    pub fn full_name(&self) -> (r: String)
        ensures
            r@ == self@.full_name(),
    {
        let m = self.module.module_id.short_str_lossless();
        concat3(m.as_str(), "::", self.script.name.as_str())
    }

    /// The name of the type of what the builder takes.
    pub fn payload_args_type_name(&self) -> (r: String)
        ensures
            r@ == self@.payload_args_type_name(),
    {
        concat2(self.payload_name.as_str(), "Args")
    }

    /// Whether the builder takes anything.
    pub fn should_render_payload_struct(&self) -> (r: bool)
        ensures
            r == self@.should_render_payload_struct(),
    {
        !(self.script.args.len() == 0 && self.script.ty_args.len() == 0)
    }

    /// What the builder takes apart.
    fn params(&self) -> (r: String)
        ensures
            r@ == builder_params(self@),
    {
        if !self.should_render_payload_struct() {
            return String::new();
        }
        let records = if self.script.args.len() > 0 && self.script.ty_args.len() > 0 {
            "args, typeArgs"
        } else if self.script.args.len() > 0 {
            "args"
        } else {
            "typeArgs"
        };
        let mut s = String::from_str("{ ");
        s.append(records);
        s.append(" }: mod.");
        s.append(self.payload_args_type_name().as_str());
        s
    }
}

impl<'info> Codegen for ScriptFunctionType<'info> {
    open spec fn typescript(&self, pkg: PackageModel) -> Result<Seq<char>, GenError> {
        builder_text(pkg.structs, self@)
    }

    fn generate_typescript(&self, ctx: &CodegenContext) -> (r: Result<String, GenError>) {
        let ghost models = self@.script.args;
        let ghost f = argument_serialized_fn(ctx@.structs);
        let mut serialized: Vec<String> = Vec::new();
        let mut i: usize = 0;
        proof {
            assert(strs(serialized@) =~= Seq::<Seq<char>>::empty());
        }
        while i < self.script.args.len()
            invariant
                i <= self.script.args@.len(),
                models == argument_models(self.script.args@),
                f == argument_serialized_fn(ctx@.structs),
                all_texts(models.take(i as int), f) == Ok::<Seq<Seq<char>>, GenError>(
                    strs(serialized@),
                ),
            decreases self.script.args.len() - i,
        {
            proof {
                assert(models.take(i + 1).drop_last() =~= models.take(i as int));
                assert(models.take(i + 1).last() == self.script.args@[i as int]@);
            }
            let a = &self.script.args[i];
            let inner = concat2("args.", a.name.as_str());
            match serialize_arg(inner.as_str(), &a.ty, ctx) {
                Ok(t) => {
                    proof {
                        assert(strs(serialized@.push(t)) =~= strs(serialized@).push(t@));
                    }
                    serialized.push(t);
                },
                Err(e) => {
                    proof {
                        lemma_all_texts_fail(models, f, i + 1);
                    }
                    return Err(e);
                },
            }
            i = i + 1;
        }
        proof {
            assert(models.take(self.script.args@.len() as int) =~= models);
        }
        let arguments = join_strings(&serialized, ", ");
        let type_arguments = join_strings(&with_prefix(&self.script.ty_args, "typeArgs."), ", ");
        let mut s = gen_doc_string_opt(&self.script.doc);
        s.append("export const ");
        s.append(self.script.name.as_str());
        s.append(" = (");
        s.append(self.params().as_str());
        s.append("): payloads.");
        s.append(self.payload_name.as_str());
        s.append(" => ({\n  type: \"script_function_payload\",\n  function: \"");
        s.append(self.full_name().as_str());
        s.append("\",\n  type_arguments: [");
        s.append(type_arguments.as_str());
        s.append("],\n  arguments: [");
        s.append(arguments.as_str());
        s.append("],\n});");
        Ok(s)
    }
}

} // verus!
