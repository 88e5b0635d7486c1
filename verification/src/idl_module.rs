//! The units that are generated for one module: its index, its entry points, its
//! errors and its description.
use crate::case::pascal_case_of;
use crate::error::GenError;
use crate::format::{
    doc_comment, doc_comment_opt, gen_doc_string, gen_doc_string_opt, text_or_empty,
};
use crate::idl::{ErrorModel, IDLModule, ModuleModel, PackageModel, StructModel};
use crate::idl_struct::struct_text;
use crate::json::{json_object_text, json_string_text, string_to_pretty, StringObject};
use crate::script_function::{
    builder_text, entry_payload_text, payload_args_text, ScriptFunctionModel,
    ScriptFunctionPayloadStruct, ScriptFunctionType,
};
use crate::text::{concat2, concat3, find_char, join, lacks, lemma_find_char_is};
use crate::{
    all_texts, const_export_text, documented, is_code_result, joined_texts, lemma_all_texts_fail,
    lemma_all_typescript_is, lemma_const_export_not_empty, lemma_non_empty_all,
    module_documented, non_empty, reexport_text, texts, CodeText, Codegen, CodegenContext,
};
use vstd::prelude::*;
use vstd::string::*;

verus! {

/// The line that imports the client library, which every unit refers to as `p`.
pub open spec fn prelude_import() -> Seq<char> {
    "import * as p from \"@movingco/prelude\";\n"@
}

/// The models of a sequence of script function types.
pub open spec fn function_type_models(fns: Seq<ScriptFunctionType>) -> Seq<ScriptFunctionModel> {
    Seq::new(fns.len(), |i: int| fns[i]@)
}

/// The models of a sequence of payload argument types.
pub open spec fn payload_models(fns: Seq<ScriptFunctionPayloadStruct>) -> Seq<
    ScriptFunctionModel,
> {
    Seq::new(fns.len(), |i: int| fns[i]@)
}

/// The script function types of a module, one for each of its functions, in their
/// order.
pub open spec fn function_types(m: ModuleModel) -> Seq<ScriptFunctionModel> {
    Seq::new(
        m.functions.len(),
        |i: int|
            ScriptFunctionModel {
                payload_name: pascal_case_of(m.functions[i].name),
                module_id: m.module_id,
                script: m.functions[i],
            },
    )
}

/// The functions whose builder takes something, in their order.
pub open spec fn with_payload_args(fns: Seq<ScriptFunctionModel>) -> Seq<ScriptFunctionModel>
    decreases fns.len(),
{
    if fns.len() == 0 {
        fns
    } else if fns.last().should_render_payload_struct() {
        with_payload_args(fns.drop_last()).push(fns.last())
    } else {
        with_payload_args(fns.drop_last())
    }
}

/// `struct_text` for the given struct table.
pub open spec fn struct_text_fn(table: Seq<StructModel>) -> spec_fn(StructModel) -> Result<
    Seq<char>,
    GenError,
> {
    |s: StructModel| struct_text(table, s)
}

/// `payload_args_text` for the given struct table.
pub open spec fn payload_args_text_fn(table: Seq<StructModel>) -> spec_fn(
    ScriptFunctionModel,
) -> Result<Seq<char>, GenError> {
    |f: ScriptFunctionModel| payload_args_text(table, f)
}

/// `builder_text` for the given struct table.
pub open spec fn builder_text_fn(table: Seq<StructModel>) -> spec_fn(ScriptFunctionModel) -> Result<
    Seq<char>,
    GenError,
> {
    |f: ScriptFunctionModel| builder_text(table, f)
}

/// `entry_payload_text` for the given struct table.
pub open spec fn entry_payload_text_fn(table: Seq<StructModel>) -> spec_fn(
    ScriptFunctionModel,
) -> Result<Seq<char>, GenError> {
    |f: ScriptFunctionModel| entry_payload_text(table, f)
}

/// The line of the module's documentation that gives its identifier.
pub open spec fn module_header(m: ModuleModel) -> Seq<char> {
    "**Module ID:** `"@ + m.module_id.full_name() + "`"@
}

/// The documentation comment that opens the index of a module: its own
/// documentation, where it has any, its identifier and the module marker.
pub open spec fn module_doc_text(m: ModuleModel) -> Seq<char> {
    doc_comment(
        join(
            non_empty(
                seq![text_or_empty(m.doc), module_header(m), "@module"@],
            ),
            "\n\n"@,
        ),
    )
}

/// The builders of the functions, with an empty line between each two.
pub open spec fn entrypoint_bodies_text(
    table: Seq<StructModel>,
    fns: Seq<ScriptFunctionModel>,
) -> Result<Seq<char>, GenError> {
    joined_texts(fns, builder_text_fn(table), "\n\n"@)
}

/// The entry unit of a module: the imports and the builders of the functions.
pub open spec fn entrypoint_module_text(
    table: Seq<StructModel>,
    fns: Seq<ScriptFunctionModel>,
) -> Result<Seq<char>, GenError> {
    match entrypoint_bodies_text(table, fns) {
        Err(e) => Err(e),
        Ok(bodies) => Ok(
            doc_comment("Entrypoint builders.\n\n@module"@) + prelude_import()
                + "\nimport * as mod from './index.js';\nimport * as payloads from './payloads.js';\n"@
                + bodies,
        ),
    }
}

/// The unit that holds the description of a module as a constant.
pub open spec fn idl_module_text(m: ModuleModel) -> Seq<char> {
    doc_comment("The IDL of the module.\n\n@module"@) + doc_comment("The IDL of the module."@)
        + "export const idl = "@ + m.json + " as const;"@
}

/// The constant of one error: its documentation and its JSON object under its name.
pub open spec fn error_const_text(e: ErrorModel) -> Seq<char> {
    doc_comment_opt(e.doc) + const_export_text(e.name, e.json)
}

/// The constants of the errors, in their order.
pub open spec fn error_const_texts(errors: Seq<ErrorModel>) -> Seq<Seq<char>> {
    Seq::new(errors.len(), |i: int| error_const_text(errors[i]))
}

/// The errors unit of a module: nothing for a module without errors, else one
/// constant for each error, in the order of the errors. In a well-formed module that
/// is the order of their codes.
pub open spec fn errors_module_text(m: ModuleModel) -> Option<Seq<char>> {
    if m.errors.len() == 0 {
        None
    } else {
        Some(doc_comment("Module errors.\n\n@module"@) + join(error_const_texts(m.errors), "\n\n"@))
    }
}

/// In the errors unit of a well-formed module the constants stand in the order of the
/// codes of their errors: of two constants the one of the lesser code comes first,
/// and no code has two constants.
pub proof fn lemma_error_constants_follow_codes(m: ModuleModel, i: int, j: int)
    requires
        m.well_formed(),
        0 <= i < j < m.errors.len(),
    ensures
        errors_module_text(m) == Some(
            doc_comment("Module errors.\n\n@module"@) + join(error_const_texts(m.errors), "\n\n"@),
        ),
        error_const_texts(m.errors).len() == m.errors.len(),
        error_const_texts(m.errors)[i] == error_const_text(m.errors[i]),
        error_const_texts(m.errors)[j] == error_const_text(m.errors[j]),
        m.errors[i].code < m.errors[j].code,
{
}

/// The unit of the payload types of the functions.
pub open spec fn entry_payloads_module_text(
    table: Seq<StructModel>,
    fns: Seq<ScriptFunctionModel>,
) -> Result<Seq<char>, GenError> {
    match joined_texts(fns, entry_payload_text_fn(table), "\n\n"@) {
        Err(e) => Err(e),
        Ok(t) => Ok(module_documented("Entrypoint script function payloads."@, t)),
    }
}

/// The constant that holds the full name of a function, given the name as JSON text.
pub open spec fn entry_name_text(f: ScriptFunctionModel, literal: Seq<char>) -> Seq<char> {
    documented(
        "Script function type for `"@ + f.full_name() + "`."@,
        const_export_text(f.script.name, literal),
    )
}

/// The constants that hold the full names of the functions, in their order.
pub open spec fn entry_name_texts(fns: Seq<ScriptFunctionModel>) -> Seq<Seq<char>> {
    Seq::new(fns.len(), |i: int| entry_name_text(fns[i], json_string_text(fns[i].full_name())))
}

/// The unit of the full names of the functions.
pub open spec fn entry_names_module_text(fns: Seq<ScriptFunctionModel>) -> Seq<char> {
    module_documented(
        "Names of all script functions."@,
        join(non_empty(entry_name_texts(fns)), "\n\n"@),
    )
}

/// The documentation comment that opens the index of a module.
pub fn module_doc(module: &IDLModule) -> (r: String)
    ensures
        r@ == module_doc_text(module@),
{
    let doc = match &module.doc {
        Some(d) => CodeText::new(d.as_str()),
        None => CodeText::new(String::new().as_str()),
    };
    let header = concat3("**Module ID:** `", module.module_id.short_str_lossless().as_str(), "`");
    let mut parts: Vec<CodeText> = Vec::new();
    parts.push(doc);
    parts.push(CodeText::new(header.as_str()));
    parts.push(CodeText::new("@module"));
    proof {
        assert(texts(parts@) =~= seq![
            text_or_empty(module@.doc),
            module_header(module@),
            "@module"@,
        ]);
    }
    match CodeText::try_join_with_separator(&parts, "\n\n") {
        Ok(t) => gen_doc_string(t.as_str()),
        Err(_) => String::new(),
    }
}

/// The generator of the units of one module.
pub struct IDLModuleGenerator<'info> {
    pub module: &'info IDLModule,
    pub script_fns: Vec<ScriptFunctionType<'info>>,
}

impl<'info> IDLModuleGenerator<'info> {
    /// The script function types that the generator holds.
    pub open spec fn functions(&self) -> Seq<ScriptFunctionModel> {
        function_type_models(self.script_fns@)
    }

    /// The generator for `module`, with one script function type for each of its
    /// functions.
    pub fn new(module: &'info IDLModule) -> (r: Self)
        ensures
            r.module == module,
            r.functions() == function_types(module@),
    {
        let mut script_fns: Vec<ScriptFunctionType<'info>> = Vec::new();
        let mut i: usize = 0;
        while i < module.functions.len()
            invariant
                i <= module.functions@.len(),
                script_fns@.len() == i,
                forall|k: int|
                    0 <= k < i ==> (#[trigger] script_fns@[k])@ == function_types(module@)[k],
            decreases module.functions.len() - i,
        {
            script_fns.push(ScriptFunctionType::new(module, &module.functions[i]));
            i = i + 1;
        }
        proof {
            assert(function_type_models(script_fns@) =~= function_types(module@));
        }
        IDLModuleGenerator { module, script_fns }
    }

    /// The documentation comment that opens the index of the module.
    pub fn generate_module_doc(&self) -> (r: String)
        ensures
            r@ == module_doc_text(self.module@),
    {
        module_doc(self.module)
    }

    /// Whether the module has a function.
    pub fn has_entrypoints(&self) -> (r: bool)
        ensures
            r == (self.module@.functions.len() > 0),
    {
        self.module.functions.len() > 0
    }

    /// The builders of the functions that the generator holds.
    pub fn generate_entrypoint_bodies(&self, ctx: &CodegenContext) -> (r: Result<
        CodeText,
        GenError,
    >)
        ensures
            is_code_result(r, entrypoint_bodies_text(ctx@.structs, self.functions())),
    {
        proof {
            lemma_all_typescript_is(
                self.script_fns@,
                ctx@,
                self.functions(),
                builder_text_fn(ctx@.structs),
            );
        }
        ctx.try_join(&self.script_fns)
    }

    /// The entry unit of the module.
    pub fn generate_entrypoint_module(&self, ctx: &CodegenContext) -> (r: Result<
        CodeText,
        GenError,
    >)
        ensures
            is_code_result(r, entrypoint_module_text(ctx@.structs, self.functions())),
    {
        match self.generate_entrypoint_bodies(ctx) {
            Err(e) => Err(e),
            Ok(bodies) => {
                let mut s = gen_doc_string("Entrypoint builders.\n\n@module");
                s.append("import * as p from \"@movingco/prelude\";\n");
                s.append(
                    "\nimport * as mod from './index.js';\nimport * as payloads from './payloads.js';\n",
                );
                s.append(bodies.as_str());
                Ok(CodeText::new(s.as_str()))
            },
        }
    }

    /// The unit that holds the description of the module as a constant. It does not
    /// fail.
    pub fn generate_idl_module(&self) -> (r: Result<CodeText, GenError>)
        ensures
            r matches Ok(t) && t@ == idl_module_text(self.module@),
    {
        let mut s = gen_doc_string("The IDL of the module.\n\n@module");
        s.append(gen_doc_string("The IDL of the module.").as_str());
        s.append("export const idl = ");
        s.append(self.module.json.as_str());
        s.append(" as const;");
        Ok(CodeText::new(s.as_str()))
    }

    /// The errors unit of the module, where the module has errors: one constant for
    /// each error, in the order of the errors, which in a well-formed module is the
    /// order of their codes. It does not fail.
    pub fn generate_errors_module(&self) -> (r: Result<Option<CodeText>, GenError>)
        ensures
            r matches Ok(unit) && match errors_module_text(self.module@) {
                Some(t) => unit matches Some(u) && u@ == t,
                None => unit is None,
            },
    {
        if self.module.errors.len() == 0 {
            return Ok(None);
        }
        let mut consts: Vec<CodeText> = Vec::new();
        let mut i: usize = 0;
        while i < self.module.errors.len()
            invariant
                i <= self.module.errors@.len(),
                consts@.len() == i,
                forall|k: int|
                    0 <= k < i ==> (#[trigger] consts@[k])@ == error_const_text(
                        self.module.errors@[k]@,
                    ),
            decreases self.module.errors.len() - i,
        {
            let error = &self.module.errors[i];
            let decl = CodeText::new_const_export(error.name.as_str(), error.json.as_str());
            let doc = gen_doc_string_opt(&error.doc);
            consts.push(CodeText::new(concat2(doc.as_str(), decl.as_str()).as_str()));
            i = i + 1;
        }
        proof {
            assert(texts(consts@) =~= error_const_texts(self.module@.errors));
            assert forall|k: int| 0 <= k < texts(consts@).len() implies (#[trigger] texts(
                consts@,
            )[k]).len() > 0 by {
                let e = self.module@.errors[k];
                lemma_const_export_not_empty(e.name, e.json);
            }
            lemma_non_empty_all(texts(consts@));
        }
        match CodeText::try_join_with_separator(&consts, "\n\n") {
            Ok(t) => {
                let doc = gen_doc_string("Module errors.\n\n@module");
                Ok(Some(CodeText::new(concat2(doc.as_str(), t.as_str()).as_str())))
            },
            Err(e) => Err(e),
        }
    }

    /// The unit of the payload types of the functions that the generator holds.
    pub fn generate_entry_payloads_module(&self, ctx: &CodegenContext) -> (r: Result<
        CodeText,
        GenError,
    >)
        ensures
            is_code_result(r, entry_payloads_module_text(ctx@.structs, self.functions())),
    {
        let ghost models = self.functions();
        let ghost f = entry_payload_text_fn(ctx@.structs);
        let mut parts: Vec<CodeText> = Vec::new();
        let mut i: usize = 0;
        proof {
            assert(texts(parts@) =~= Seq::<Seq<char>>::empty());
        }
        while i < self.script_fns.len()
            invariant
                i <= self.script_fns@.len(),
                models == self.functions(),
                f == entry_payload_text_fn(ctx@.structs),
                all_texts(models.take(i as int), f) == Ok::<Seq<Seq<char>>, GenError>(
                    texts(parts@),
                ),
            decreases self.script_fns.len() - i,
        {
            proof {
                assert(models.take(i + 1).drop_last() =~= models.take(i as int));
                assert(models.take(i + 1).last() == self.script_fns@[i as int]@);
            }
            match self.script_fns[i].generate_entry_payload_struct(ctx) {
                Ok(t) => {
                    proof {
                        assert(texts(parts@.push(t)) =~= texts(parts@).push(t@));
                    }
                    parts.push(t);
                },
                Err(e) => {
                    proof {
                        lemma_all_texts_fail(models, f, i + 1);
                    }
                    return Err(e);
                },
            }
            i = i + 1;
        }
        proof {
            assert(models.take(self.script_fns@.len() as int) =~= models);
        }
        match CodeText::try_join_with_separator(&parts, "\n\n") {
            Ok(t) => Ok(t.module_docs("Entrypoint script function payloads.")),
            Err(e) => Err(e),
        }
    }

    /// The constant that holds the full name of a function, given the name as JSON
    /// text.
    pub fn entry_name_const(f: &ScriptFunctionType, literal: &str) -> (r: CodeText)
        ensures
            r@ == entry_name_text(f@, literal@),
    {
        let docs = concat3("Script function type for `", f.full_name().as_str(), "`.");
        CodeText::new_const_export(f.name(), literal).docs(docs.as_str())
    }

    /// The unit of the full names of the functions that the generator holds, each name
    /// written as JSON text. It does not fail.
    pub fn generate_entry_names_module(&self, ctx: &CodegenContext) -> (r: Result<
        CodeText,
        GenError,
    >)
        ensures
            r matches Ok(t) && t@ == entry_names_module_text(self.functions()),
    {
        let mut parts: Vec<CodeText> = Vec::new();
        let mut i: usize = 0;
        while i < self.script_fns.len()
            invariant
                i <= self.script_fns@.len(),
                parts@.len() == i,
                forall|k: int|
                    0 <= k < i ==> (#[trigger] parts@[k])@ == entry_name_texts(self.functions())[k],
            decreases self.script_fns.len() - i,
        {
            let f = &self.script_fns[i];
            let literal = match string_to_pretty(f.full_name().as_str()) {
                Ok(t) => t,
                Err(e) => {
                    return Err(e);
                },
            };
            parts.push(Self::entry_name_const(f, literal.as_str()));
            i = i + 1;
        }
        proof {
            assert(texts(parts@) =~= entry_name_texts(self.functions()));
        }
        match CodeText::try_join_with_separator(&parts, "\n\n") {
            Ok(t) => Ok(t.module_docs("Names of all script functions.")),
            Err(e) => Err(e),
        }
    }
}

/// The map from the name of each struct with the ability `Key` to its full name. Of
/// two such structs with one name the later one counts.
pub open spec fn resource_entries(structs: Seq<StructModel>) -> Map<Seq<char>, Seq<char>>
    decreases structs.len(),
{
    if structs.len() == 0 {
        Map::empty()
    } else if structs.last().is_resource() {
        resource_entries(structs.drop_last()).insert(
            structs.last().name.name,
            structs.last().name.full_name(),
        )
    } else {
        resource_entries(structs.drop_last())
    }
}

/// The map from the name of each struct to its full name. Of two structs with one
/// name the later one counts.
pub open spec fn struct_entries(structs: Seq<StructModel>) -> Map<Seq<char>, Seq<char>>
    decreases structs.len(),
{
    if structs.len() == 0 {
        Map::empty()
    } else {
        struct_entries(structs.drop_last()).insert(
            structs.last().name.name,
            structs.last().name.full_name(),
        )
    }
}

/// The statements of the index that export the units of the entry points: present
/// where the module has a function.
pub open spec fn entry_reexports(m: ModuleModel) -> Seq<char> {
    if m.functions.len() > 0 {
        reexport_text("entry"@, "./entry.js"@) + "\n"@ + reexport_text(
            "payloads"@,
            "./payloads.js"@,
        ) + "\n"@ + reexport_text("entryNames"@, "./entryNames.js"@)
    } else {
        Seq::empty()
    }
}

/// The statement of the index that exports the errors unit: present where the module
/// has an error.
pub open spec fn errors_reexport(m: ModuleModel) -> Seq<char> {
    if m.errors.len() > 0 {
        "export * as errors from \"./errors.js\";"@
    } else {
        Seq::empty()
    }
}

/// The index unit of a module, given the declarations of its structs, the types of
/// what its builders take, and the JSON texts of its two maps of structs.
#[verifier::opaque]
pub open spec fn module_index_with(
    m: ModuleModel,
    struct_types: Seq<char>,
    function_payloads: Seq<char>,
    resources_json: Seq<char>,
    structs_json: Seq<char>,
) -> Seq<char> {
    module_doc_text(m) + prelude_import() + "\n\n"@ + struct_types + "\n\n"@ + function_payloads
        + "\n\n"@ + entry_reexports(m)
        + "\n\nexport { idl } from \"./idl.js\";\n\n/** The address of the module. */\nexport const ADDRESS = \""@
        + m.module_id.address
        + "\" as const;\n/** The full module name. */\nexport const FULL_NAME = \""@
        + m.module_id.full_name()
        + "\" as const;\n/** The name of the module. */\nexport const NAME = \""@
        + m.module_id.name
        + "\" as const;\n\n/** Module ID information. */\nexport const id = {\n  ADDRESS,\n  FULL_NAME,\n  NAME,\n} as const;\n\n"@
        + errors_reexport(m) + "\n\n/** Module error codes. */\nexport const errorCodes = "@
        + m.errors_json + " as const;\n\n/** All module function IDLs. */\nexport const functions = "@
        + m.functions_json
        + " as const;\n\n/** All struct types with ability `key`. */\nexport const resources = "@
        + resources_json + " as const;\n\n/** All struct types. */\nexport const structs = "@
        + structs_json + " as const;\n\n/** Payload generators for module `"@
        + m.module_id.full_name()
        + "`. */\nconst moduleImpl = {\n  ...id,\n  errorCodes,\n  functions,\n  resources,\n  structs,\n} as const;\n\n"@
        + doc_comment_opt(m.doc)
        + "export const moduleDefinition = moduleImpl as p.MoveModuleDefinition<\""@
        + m.module_id.address + "\", \""@ + m.module_id.name + "\"> as typeof moduleImpl;\n"@
}

/// The index unit of a module, `table` being the structs of its package: the declarations of its structs, the
/// types of what its builders take, its identifier, the exports of its other units,
/// and its maps of errors, functions, resources and structs. Where a type has no
/// form, the error of the first such type, those of the functions before those of
/// the structs.
pub open spec fn module_index_text(m: ModuleModel, table: Seq<StructModel>) -> Result<
    Seq<char>,
    GenError,
> {
    match joined_texts(with_payload_args(function_types(m)), payload_args_text_fn(table), "\n\n"@) {
        Err(e) => Err(e),
        Ok(function_payloads) => match joined_texts(m.structs, struct_text_fn(table), "\n\n"@) {
            Err(e) => Err(e),
            Ok(struct_types) => Ok(
                module_index_with(
                    m,
                    struct_types,
                    function_payloads,
                    json_object_text(resource_entries(m.structs)),
                    json_object_text(struct_entries(m.structs)),
                ),
            ),
        },
    }
}

/// The JSON text of the map of the resources of a module, or of all its structs. It
/// does not fail.
pub fn structs_json(module: &IDLModule, resources_only: bool) -> (r: Result<String, GenError>)
    ensures
        r matches Ok(t) && t@ == json_object_text(
            if resources_only {
                resource_entries(module@.structs)
            } else {
                struct_entries(module@.structs)
            },
        ),
{
    let ghost models = module@.structs;
    let mut object = StringObject::new();
    let mut i: usize = 0;
    while i < module.structs.len()
        invariant
            i <= module.structs@.len(),
            models == module@.structs,
            object.entries() == if resources_only {
                resource_entries(models.take(i as int))
            } else {
                struct_entries(models.take(i as int))
            },
        decreases module.structs.len() - i,
    {
        proof {
            assert(models.take(i + 1).drop_last() =~= models.take(i as int));
            assert(models.take(i + 1).last() == module.structs@[i as int]@);
        }
        let s = &module.structs[i];
        if !resources_only || s.is_resource() {
            object.insert(s.name.name.as_str(), s.name.full_name().as_str());
        }
        i = i + 1;
    }
    proof {
        assert(models.take(module.structs@.len() as int) =~= models);
    }
    object.to_pretty()
}

impl IDLModule {
    /// The index unit of the module, given the declarations of its structs, the types
    /// of what its builders take, and the JSON texts of its two maps of structs.
    pub fn index_from(
        &self,
        struct_types: &str,
        function_payloads: &str,
        resources_json: &str,
        structs_json: &str,
    ) -> (r: String)
        ensures
            r@ == module_index_with(
                self@,
                struct_types@,
                function_payloads@,
                resources_json@,
                structs_json@,
            ),
    {
        proof {
            reveal(module_index_with);
        }
        let reexports = if self.functions.len() > 0 {
            let mut e = CodeText::new_reexport("entry", "./entry.js").to_string();
            e.append("\n");
            e.append(CodeText::new_reexport("payloads", "./payloads.js").as_str());
            e.append("\n");
            e.append(CodeText::new_reexport("entryNames", "./entryNames.js").as_str());
            e
        } else {
            String::new()
        };
        let errors = if self.errors.len() > 0 {
            String::from_str("export * as errors from \"./errors.js\";")
        } else {
            String::new()
        };
        let full_name = self.module_id.short_str_lossless();
        let mut s = module_doc(self);
        s.append("import * as p from \"@movingco/prelude\";\n");
        s.append("\n\n");
        s.append(struct_types);
        s.append("\n\n");
        s.append(function_payloads);
        s.append("\n\n");
        s.append(reexports.as_str());
        s.append(
            "\n\nexport { idl } from \"./idl.js\";\n\n/** The address of the module. */\nexport const ADDRESS = \"",
        );
        s.append(self.module_id.address());
        s.append("\" as const;\n/** The full module name. */\nexport const FULL_NAME = \"");
        s.append(full_name.as_str());
        s.append("\" as const;\n/** The name of the module. */\nexport const NAME = \"");
        s.append(self.module_id.name());
        s.append(
            "\" as const;\n\n/** Module ID information. */\nexport const id = {\n  ADDRESS,\n  FULL_NAME,\n  NAME,\n} as const;\n\n",
        );
        s.append(errors.as_str());
        s.append("\n\n/** Module error codes. */\nexport const errorCodes = ");
        s.append(self.errors_json.as_str());
        s.append(" as const;\n\n/** All module function IDLs. */\nexport const functions = ");
        s.append(self.functions_json.as_str());
        s.append(
            " as const;\n\n/** All struct types with ability `key`. */\nexport const resources = ",
        );
        s.append(resources_json);
        s.append(" as const;\n\n/** All struct types. */\nexport const structs = ");
        s.append(structs_json);
        s.append(" as const;\n\n/** Payload generators for module `");
        s.append(full_name.as_str());
        s.append(
            "`. */\nconst moduleImpl = {\n  ...id,\n  errorCodes,\n  functions,\n  resources,\n  structs,\n} as const;\n\n",
        );
        s.append(gen_doc_string_opt(&self.doc).as_str());
        s.append("export const moduleDefinition = moduleImpl as p.MoveModuleDefinition<\"");
        s.append(self.module_id.address());
        s.append("\", \"");
        s.append(self.module_id.name());
        s.append("\"> as typeof moduleImpl;\n");
        s
    }

}

impl Codegen for IDLModule {
    /// The index unit of the module.
    open spec fn typescript(&self, pkg: PackageModel) -> Result<Seq<char>, GenError> {
        module_index_text(self@, pkg.structs)
    }

    fn generate_typescript(&self, ctx: &CodegenContext) -> (r: Result<String, GenError>) {
        let generator = IDLModuleGenerator::new(self);
        let ghost fns = generator.functions();
        let mut payloads: Vec<ScriptFunctionPayloadStruct> = Vec::new();
        let mut i: usize = 0;
        proof {
            assert(payload_models(payloads@) =~= Seq::<ScriptFunctionModel>::empty());
        }
        while i < generator.script_fns.len()
            invariant
                i <= generator.script_fns@.len(),
                fns == generator.functions(),
                payload_models(payloads@) == with_payload_args(fns.take(i as int)),
            decreases generator.script_fns.len() - i,
        {
            proof {
                assert(fns.take(i + 1).drop_last() =~= fns.take(i as int));
                assert(fns.take(i + 1).last() == generator.script_fns@[i as int]@);
            }
            if generator.script_fns[i].should_render_payload_struct() {
                let p = generator.script_fns[i].payload();
                proof {
                    assert(payload_models(payloads@.push(p)) =~= payload_models(payloads@).push(
                        p@,
                    ));
                }
                payloads.push(p);
            }
            i = i + 1;
        }
        proof {
            assert(fns.take(generator.script_fns@.len() as int) =~= fns);
            lemma_all_typescript_is(
                payloads@,
                ctx@,
                payload_models(payloads@),
                payload_args_text_fn(ctx@.structs),
            );
            lemma_all_typescript_is(
                self.structs@,
                ctx@,
                self@.structs,
                struct_text_fn(ctx@.structs),
            );
        }
        let function_payloads = match ctx.try_join(&payloads) {
            Ok(t) => t,
            Err(e) => {
                return Err(e);
            },
        };
        let struct_types = match ctx.try_join(&self.structs) {
            Ok(t) => t,
            Err(e) => {
                return Err(e);
            },
        };
        let resources = match structs_json(self, true) {
            Ok(t) => t,
            Err(e) => {
                return Err(e);
            },
        };
        let structs = match structs_json(self, false) {
            Ok(t) => t,
            Err(e) => {
                return Err(e);
            },
        };
        Ok(
            self.index_from(
                struct_types.as_str(),
                function_payloads.as_str(),
                resources.as_str(),
                structs.as_str(),
            ),
        )
    }
}

/// A generated unit and the path of the file that holds it, relative to the
/// directory of the generated package.
#[derive(Debug, PartialEq, Eq)]
pub struct GeneratedFile {
    pub path: String,
    pub content: String,
}

/// The model of a `GeneratedFile`.
pub struct FileModel {
    pub path: Seq<char>,
    pub content: Seq<char>,
}

impl View for GeneratedFile {
    type V = FileModel;

    open spec fn view(&self) -> FileModel {
        FileModel { path: self.path@, content: self.content@ }
    }
}

/// The models of a sequence of files.
pub open spec fn file_models(files: Seq<GeneratedFile>) -> Seq<FileModel> {
    Seq::new(files.len(), |i: int| files[i]@)
}

/// The file of a unit of a module: in the directory named after the module.
pub open spec fn unit_file(module: Seq<char>, unit: Seq<char>, content: Seq<char>) -> FileModel {
    FileModel { path: module + "/"@ + unit + ".ts"@, content }
}

/// The errors unit of a module as a file, where the module has errors.
pub open spec fn errors_files(m: ModuleModel) -> Seq<FileModel> {
    match errors_module_text(m) {
        Some(t) => seq![unit_file(m.module_id.name, "errors"@, t)],
        None => Seq::empty(),
    }
}

/// The files of a module whose script function types are `fns`: the entry unit where
/// the module has a function, the description, the errors unit where the module has
/// an error, and the index.
#[verifier::opaque]
pub open spec fn module_files_with(
    m: ModuleModel,
    fns: Seq<ScriptFunctionModel>,
    table: Seq<StructModel>,
) -> Result<Seq<FileModel>, GenError> {
    let name = m.module_id.name;
    let rest = |entry: Seq<FileModel>|
        match module_index_text(m, table) {
            Err(e) => Err(e),
            Ok(index) => Ok(
                entry + seq![unit_file(name, "idl"@, idl_module_text(m))] + errors_files(m) + seq![
                    unit_file(name, "index"@, index),
                ],
            ),
        };
    if m.functions.len() > 0 {
        match entrypoint_module_text(table, fns) {
            Err(e) => Err(e),
            Ok(entry) => rest(seq![unit_file(name, "entry"@, entry)]),
        }
    } else {
        rest(Seq::empty())
    }
}

/// The files of a module.
pub open spec fn module_files(m: ModuleModel, table: Seq<StructModel>) -> Result<
    Seq<FileModel>,
    GenError,
> {
    module_files_with(m, function_types(m), table)
}

/// Whether `r` is the files or the error that `expected` gives.
pub open spec fn is_files_result(
    r: Result<Vec<GeneratedFile>, GenError>,
    expected: Result<Seq<FileModel>, GenError>,
) -> bool {
    match expected {
        Ok(files) => r matches Ok(v) && file_models(v@) == files,
        Err(e) => r matches Err(f) && f == e,
    }
}

/// The file `path` with the given content.
fn file(directory: &str, unit: &str, content: &str) -> (r: GeneratedFile)
    ensures
        r@ == unit_file(directory@, unit@, content@),
{
    let mut path = String::from_str(directory);
    path.append("/");
    path.append(unit);
    path.append(".ts");
    GeneratedFile { path, content: String::from_str(content) }
}

impl<'info> IDLModuleGenerator<'info> {
    /// The files of the module, or the error of the first type that has no form.
    pub fn generate_files(&self, ctx: &CodegenContext) -> (r: Result<
        Vec<GeneratedFile>,
        GenError,
    >)
        ensures
            is_files_result(r, module_files_with(self.module@, self.functions(), ctx@.structs)),
    {
        let name = self.module.module_id.name();
        let mut files: Vec<GeneratedFile> = Vec::new();
        proof {
            reveal(module_files_with);
            assert(file_models(files@) =~= Seq::<FileModel>::empty());
        }
        if self.has_entrypoints() {
            match self.generate_entrypoint_module(ctx) {
                Ok(t) => {
                    files.push(file(name, "entry", t.as_str()));
                },
                Err(e) => {
                    return Err(e);
                },
            }
            proof {
                assert(file_models(files@) =~= seq![files@[0]@]);
            }
        }
        let ghost entry = file_models(files@);
        match self.generate_idl_module() {
            Ok(t) => {
                files.push(file(name, "idl", t.as_str()));
            },
            Err(e) => {
                return Err(e);
            },
        }
        let ghost with_idl = file_models(files@);
        proof {
            assert(with_idl =~= entry + seq![
                unit_file(self.module@.module_id.name, "idl"@, idl_module_text(self.module@)),
            ]);
        }
        match self.generate_errors_module() {
            Ok(Some(t)) => {
                files.push(file(name, "errors", t.as_str()));
                proof {
                    assert(file_models(files@) =~= with_idl + errors_files(self.module@));
                }
            },
            Ok(None) => {
                proof {
                    assert(file_models(files@) =~= with_idl + errors_files(self.module@));
                }
            },
            Err(e) => {
                return Err(e);
            },
        }
        let ghost with_errors = file_models(files@);
        match self.module.generate_typescript(ctx) {
            Ok(t) => {
                files.push(file(name, "index", t.as_str()));
                proof {
                    assert(file_models(files@) =~= with_errors + seq![
                        unit_file(self.module@.module_id.name, "index"@, t@),
                    ]);
                }
                Ok(files)
            },
            Err(e) => Err(e),
        }
    }
}

/// A struct with the ability `Key`, behind which no struct of the same name stands,
/// is in the map of resources: under its name stands its full name.
pub proof fn lemma_resource_is_listed(structs: Seq<StructModel>, i: int)
    requires
        0 <= i < structs.len(),
        structs[i].is_resource(),
        forall|j: int| i < j < structs.len() ==> structs[j].name.name != structs[i].name.name,
    ensures
        resource_entries(structs).contains_key(structs[i].name.name),
        resource_entries(structs)[structs[i].name.name] == structs[i].name.full_name(),
    decreases structs.len(),
{
    if i < structs.len() - 1 {
        lemma_resource_is_listed(structs.drop_last(), i);
    }
}

/// Each name in the map of resources is that of a struct with the ability `Key`.
pub proof fn lemma_listed_is_resource(structs: Seq<StructModel>, name: Seq<char>)
    requires
        resource_entries(structs).contains_key(name),
    ensures
        exists|i: int|
            0 <= i < structs.len() && (#[trigger] structs[i]).is_resource() && structs[i].name.name
                == name,
    decreases structs.len(),
{
    if structs.len() > 0 {
        let last = structs.last();
        if last.is_resource() && last.name.name == name {
            assert(structs[structs.len() - 1].is_resource());
        } else {
            lemma_listed_is_resource(structs.drop_last(), name);
            let i = choose|i: int|
                0 <= i < structs.drop_last().len() && (#[trigger] structs.drop_last()[i]).is_resource()
                    && structs.drop_last()[i].name.name == name;
            assert(structs[i] == structs.drop_last()[i]);
        }
    }
}

/// A struct behind which no struct of the same name stands is in the map of structs:
/// under its name stands its full name.
pub proof fn lemma_struct_is_listed(structs: Seq<StructModel>, i: int)
    requires
        0 <= i < structs.len(),
        forall|j: int| i < j < structs.len() ==> structs[j].name.name != structs[i].name.name,
    ensures
        struct_entries(structs).contains_key(structs[i].name.name),
        struct_entries(structs)[structs[i].name.name] == structs[i].name.full_name(),
    decreases structs.len(),
{
    if i < structs.len() - 1 {
        lemma_struct_is_listed(structs.drop_last(), i);
    }
}

/// The directory of a path: what stands before its first `/`.
pub open spec fn directory_of(path: Seq<char>) -> Seq<char> {
    path.take(find_char(path, '/'))
}

/// Whether a path names a file in a directory: whether it holds a `/`.
pub open spec fn in_a_directory(path: Seq<char>) -> bool {
    find_char(path, '/') < path.len()
}

/// The file of a unit of a module lies in the directory named after the module, where
/// that name holds no `/`.
pub proof fn lemma_unit_file_directory(module: Seq<char>, unit: Seq<char>, content: Seq<char>)
    requires
        lacks(module, '/'),
    ensures
        in_a_directory(unit_file(module, unit, content).path),
        directory_of(unit_file(module, unit, content).path) == module,
{
    reveal_strlit("/");
    let path = unit_file(module, unit, content).path;
    assert forall|k: int| 0 <= k < module.len() implies path[k] != '/' by {
        assert(path[k] == module[k]);
    }
    assert(path[module.len() as int] == '/');
    lemma_find_char_is(path, '/', module.len() as int);
    assert(path.take(module.len() as int) =~= module);
}

/// The files of two units of one module have different paths.
pub proof fn lemma_unit_paths_differ(module: Seq<char>, first: Seq<char>, second: Seq<char>)
    requires
        first != second,
    ensures
        module + "/"@ + first + ".ts"@ != module + "/"@ + second + ".ts"@,
{
    reveal_strlit("/");
    let p = module + "/"@ + first + ".ts"@;
    let q = module + "/"@ + second + ".ts"@;
    if p == q {
        assert(p.len() == module.len() + 1 + first.len() + ".ts"@.len());
        assert(q.len() == module.len() + 1 + second.len() + ".ts"@.len());
        assert(first.len() == second.len());
        assert forall|k: int| 0 <= k < first.len() implies first[k] == second[k] by {
            assert(p[module.len() + 1 + k] == first[k]);
            assert(q[module.len() + 1 + k] == second[k]);
        }
        assert(first =~= second);
    }
}

/// The files of a module lie in the directory named after the module, where that name
/// holds no `/`, and no two of them have the same path.
pub proof fn lemma_module_file_paths(
    m: ModuleModel,
    fns: Seq<ScriptFunctionModel>,
    table: Seq<StructModel>,
)
    requires
        module_files_with(m, fns, table) is Ok,
        lacks(m.module_id.name, '/'),
    ensures
        forall|k: int|
            0 <= k < module_files_with(m, fns, table)->Ok_0.len() ==> in_a_directory(
                (#[trigger] module_files_with(m, fns, table)->Ok_0[k]).path,
            ) && directory_of(module_files_with(m, fns, table)->Ok_0[k].path) == m.module_id.name,
        forall|k: int, l: int|
            0 <= k < l < module_files_with(m, fns, table)->Ok_0.len() ==> module_files_with(
                m,
                fns,
                table,
            )->Ok_0[k].path != module_files_with(m, fns, table)->Ok_0[l].path,
{
    reveal(module_files_with);
    reveal_strlit("entry");
    reveal_strlit("idl");
    reveal_strlit("errors");
    reveal_strlit("index");
    let name = m.module_id.name;
    let files = module_files_with(m, fns, table)->Ok_0;
    let index = module_index_text(m, table)->Ok_0;
    let entry_file = unit_file(name, "entry"@, entrypoint_module_text(table, fns)->Ok_0);
    let idl_file = unit_file(name, "idl"@, idl_module_text(m));
    let index_file = unit_file(name, "index"@, index);
    let entry: Seq<FileModel> = if m.functions.len() > 0 {
        seq![entry_file]
    } else {
        Seq::empty()
    };
    assert(files == entry + seq![idl_file] + errors_files(m) + seq![index_file]);
    lemma_unit_file_directory(name, "entry"@, entry_file.content);
    lemma_unit_file_directory(name, "idl"@, idl_file.content);
    lemma_unit_file_directory(name, "index"@, index_file.content);
    assert("entry"@[0] == 'e' && "index"@[0] == 'i');
    lemma_unit_paths_differ(name, "entry"@, "idl"@);
    lemma_unit_paths_differ(name, "entry"@, "errors"@);
    lemma_unit_paths_differ(name, "entry"@, "index"@);
    lemma_unit_paths_differ(name, "idl"@, "errors"@);
    lemma_unit_paths_differ(name, "idl"@, "index"@);
    lemma_unit_paths_differ(name, "errors"@, "index"@);
    if m.errors.len() > 0 {
        let errors_file = unit_file(name, "errors"@, errors_module_text(m)->0);
        lemma_unit_file_directory(name, "errors"@, errors_file.content);
        assert(errors_files(m) == seq![errors_file]);
        if m.functions.len() > 0 {
            assert(files =~= seq![entry_file, idl_file, errors_file, index_file]);
        } else {
            assert(files =~= seq![idl_file, errors_file, index_file]);
        }
    } else {
        assert(errors_files(m) == Seq::<FileModel>::empty());
        if m.functions.len() > 0 {
            assert(files =~= seq![entry_file, idl_file, index_file]);
        } else {
            assert(files =~= seq![idl_file, index_file]);
        }
    }
}

} // verus!
