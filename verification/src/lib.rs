//! Generates TypeScript source text from the interface description of a Move package.
pub mod case;
pub mod error;
pub mod format;
pub mod idl;
pub mod idl_module;
pub mod idl_package;
pub mod idl_struct;
pub mod idl_type;
pub mod json;
pub mod script_function;
pub mod text;

use crate::error::{is_text_result, GenError};
use crate::format::{doc_comment, gen_doc_string, indent, indent_text};
use crate::idl::{IDLModule, IDLPackage, PackageModel};
use crate::idl_module::{function_types, IDLModuleGenerator};
use crate::text::{concat2, concat3, join, join_strings, strs, trim, trim_str};
use vstd::prelude::*;
use vstd::string::*;

verus! {

/// A piece of generated source text.
#[derive(Debug, Default, PartialEq, Eq, PartialOrd, Ord, Hash)]
pub struct CodeText(String);

impl View for CodeText {
    type V = Seq<char>;

    closed spec fn view(&self) -> Seq<char> {
        self.0@
    }
}

/// The views of a sequence of texts.
pub open spec fn texts(v: Seq<CodeText>) -> Seq<Seq<char>> {
    Seq::new(v.len(), |i: int| v[i]@)
}

/// The parts that are not empty, in their order.
pub open spec fn non_empty(parts: Seq<Seq<char>>) -> Seq<Seq<char>>
    decreases parts.len(),
{
    if parts.len() == 0 {
        parts
    } else if parts.last().len() > 0 {
        non_empty(parts.drop_last()).push(parts.last())
    } else {
        non_empty(parts.drop_last())
    }
}

/// The statement that exports everything of the module at `path` under `name`.
pub open spec fn reexport_text(name: Seq<char>, path: Seq<char>) -> Seq<char> {
    "export * as "@ + name + " from \""@ + path + "\";"@
}

/// The statement that exports `name` of the module at `path`.
pub open spec fn named_reexport_text(name: Seq<char>, path: Seq<char>) -> Seq<char> {
    "export { "@ + name + " } from \""@ + path + "\";"@
}

/// The declaration of the exported type `name` with the given fields.
pub open spec fn fields_export_text(name: Seq<char>, fields: Seq<char>) -> Seq<char> {
    "export type "@ + name + " = {\n"@ + fields + " };"@
}

/// The declaration of the exported constant `name` with the given JSON value.
pub open spec fn const_export_text(name: Seq<char>, json: Seq<char>) -> Seq<char> {
    "export const "@ + name + " = "@ + json + " as const;"@
}

/// `text` behind the documentation comment for `docs`.
pub open spec fn documented(docs: Seq<char>, text: Seq<char>) -> Seq<char> {
    doc_comment(docs) + text
}

/// `text` behind the documentation comment that opens a module, on a line of its own.
pub open spec fn module_documented(docs: Seq<char>, text: Seq<char>) -> Seq<char> {
    doc_comment(docs + "\n\n@module"@) + "\n"@ + text
}

impl CodeText {
    pub fn new(s: &str) -> (r: CodeText)
        ensures
            r@ == s@,
    {
        CodeText(String::from_str(s))
    }

    /// The text as a string.
    pub fn to_string(&self) -> (r: String)
        ensures
            r@ == self@,
    {
        self.0.clone()
    }

    /// The text as a string slice.
    pub fn as_str(&self) -> (r: &str)
        ensures
            r@ == self@,
    {
        self.0.as_str()
    }

    /// The statement that exports everything of the module at `path` under `name`.
    pub fn new_reexport(name: &str, path: &str) -> (r: CodeText)
        ensures
            r@ == reexport_text(name@, path@),
    {
        let mut s = String::from_str("export * as ");
        s.append(name);
        s.append(" from \"");
        s.append(path);
        s.append("\";");
        CodeText(s)
    }

    /// The statement that exports `name` of the module at `path`.
    pub fn new_named_reexport(name: &str, path: &str) -> (r: CodeText)
        ensures
            r@ == named_reexport_text(name@, path@),
    {
        let mut s = String::from_str("export { ");
        s.append(name);
        s.append(" } from \"");
        s.append(path);
        s.append("\";");
        CodeText(s)
    }

    /// The declaration of the exported type `name` with the given fields.
    pub fn new_fields_export(name: &str, fields: &str) -> (r: CodeText)
        ensures
            r@ == fields_export_text(name@, fields@),
    {
        let mut s = String::from_str("export type ");
        s.append(name);
        s.append(" = {\n");
        s.append(fields);
        s.append(" };");
        CodeText(s)
    }

    /// The text with a line feed behind it.
    pub fn append_newline(&self) -> (r: CodeText)
        ensures
            r@ == self@ + "\n"@,
    {
        CodeText(concat2(self.0.as_str(), "\n"))
    }

    /// The declaration of the exported constant `name` whose value is the JSON text
    /// `json`.
    pub fn new_const_export(name: &str, json: &str) -> (r: CodeText)
        ensures
            r@ == const_export_text(name@, json@),
    {
        let mut s = String::from_str("export const ");
        s.append(name);
        s.append(" = ");
        s.append(json);
        s.append(" as const;");
        CodeText(s)
    }

    /// The texts that are not empty, joined by the separator. It does not fail.
    pub fn try_join_with_separator(values: &Vec<CodeText>, separator: &str) -> (r: Result<
        CodeText,
        GenError,
    >)
        ensures
            r matches Ok(t) && t@ == join(non_empty(texts(values@)), separator@),
    {
        let mut kept: Vec<String> = Vec::new();
        let mut i: usize = 0;
        while i < values.len()
            invariant
                i <= values@.len(),
                strs(kept@) == non_empty(texts(values@).take(i as int)),
            decreases values.len() - i,
        {
            proof {
                let next = texts(values@).take(i + 1);
                assert(next.drop_last() =~= texts(values@).take(i as int));
                assert(next.last() == values@[i as int]@);
            }
            if !values[i].0.as_str().is_empty() {
                let item = values[i].to_string();
                proof {
                    assert(strs(kept@.push(item)) =~= strs(kept@).push(item@));
                }
                kept.push(item);
            }
            i = i + 1;
        }
        proof {
            assert(texts(values@).take(values@.len() as int) =~= texts(values@));
        }
        Ok(CodeText(join_strings(&kept, separator)))
    }

    /// The text behind the documentation comment for `docs`.
    pub fn docs(&self, docs: &str) -> (r: CodeText)
        ensures
            r@ == documented(docs@, self@),
    {
        let d = gen_doc_string(docs);
        CodeText(concat2(d.as_str(), self.0.as_str()))
    }

    /// The text behind the documentation comment that opens a module.
    pub fn module_docs(&self, docs: &str) -> (r: CodeText)
        ensures
            r@ == module_documented(docs@, self@),
    {
        let full = concat2(docs, "\n\n@module");
        let d = gen_doc_string(full.as_str());
        CodeText(concat3(d.as_str(), "\n", self.0.as_str()))
    }

    /// The text with each of its non-empty lines shifted right by two spaces.
    pub fn indent(&self) -> (r: CodeText)
        ensures
            r@ == indent_text(self@),
    {
        CodeText(indent(self.0.as_str()))
    }

    /// The text without its leading and trailing whitespace.
    pub fn trim(&self) -> (r: CodeText)
        ensures
            r@ == trim(self@),
    {
        CodeText(trim_str(self.0.as_str()))
    }
}

impl From<String> for CodeText {
    fn from(s: String) -> (r: CodeText) {
        CodeText(s)
    }
}

impl vstd::std_specs::convert::FromSpecImpl<String> for CodeText {
    open spec fn obeys_from_spec() -> bool {
        true
    }

    closed spec fn from_spec(s: String) -> CodeText {
        CodeText(s)
    }
}

impl From<CodeText> for String {
    fn from(s: CodeText) -> (r: String) {
        s.0
    }
}

impl vstd::std_specs::convert::FromSpecImpl<CodeText> for String {
    open spec fn obeys_from_spec() -> bool {
        true
    }

    closed spec fn from_spec(s: CodeText) -> String {
        s.0
    }
}

/// A text made from a string holds the characters of the string, and the string made
/// from a text holds the characters of the text.
pub proof fn lemma_conversions_keep_the_text(s: String, t: CodeText)
    ensures
        <CodeText as vstd::std_specs::convert::FromSpec<String>>::from_spec(s)@ == s@,
        <String as vstd::std_specs::convert::FromSpec<CodeText>>::from_spec(t)@ == t@,
{
}

/// What generation reads beside the value at hand: the package, for its struct table.
pub struct CodegenContext<'info> {
    pkg: &'info IDLPackage,
}

impl<'info> View for CodegenContext<'info> {
    type V = PackageModel;

    closed spec fn view(&self) -> PackageModel {
        self.pkg@
    }
}

/// A value that TypeScript text can be generated for.
pub trait Codegen {
    /// The text for the value within the package, or the error that generation fails
    /// with.
    spec fn typescript(&self, pkg: PackageModel) -> Result<Seq<char>, GenError>;

    /// Generates the text for the value.
    fn generate_typescript(&self, ctx: &CodegenContext) -> (r: Result<String, GenError>)
        ensures
            is_text_result(r, self.typescript(ctx@)),
    ;
}

impl Codegen for CodeText {
    open spec fn typescript(&self, pkg: PackageModel) -> Result<Seq<char>, GenError> {
        Ok(self@)
    }

    fn generate_typescript(&self, _ctx: &CodegenContext) -> (r: Result<String, GenError>) {
        Ok(self.to_string())
    }
}

/// The texts of the values, in their order, or the error of the first that fails.
pub open spec fn all_typescript<T: Codegen>(values: Seq<T>, pkg: PackageModel) -> Result<
    Seq<Seq<char>>,
    GenError,
>
    decreases values.len(),
{
    if values.len() == 0 {
        Ok(Seq::empty())
    } else {
        match all_typescript(values.drop_last(), pkg) {
            Err(e) => Err(e),
            Ok(done) => match values.last().typescript(pkg) {
                Err(e) => Err(e),
                Ok(t) => Ok(done.push(t)),
            },
        }
    }
}

/// The texts of the values that are not empty, joined by the separator, or the error
/// of the first value that fails.
pub open spec fn joined_typescript<T: Codegen>(
    values: Seq<T>,
    pkg: PackageModel,
    separator: Seq<char>,
) -> Result<Seq<char>, GenError> {
    match all_typescript(values, pkg) {
        Err(e) => Err(e),
        Ok(parts) => Ok(join(non_empty(parts), separator)),
    }
}

/// Whether `r` is the text or the error that `expected` gives.
pub open spec fn is_code_result(
    r: Result<CodeText, GenError>,
    expected: Result<Seq<char>, GenError>,
) -> bool {
    match expected {
        Ok(t) => r matches Ok(s) && s@ == t,
        Err(e) => r matches Err(f) && f == e,
    }
}

impl<'info> CodegenContext<'info> {
    pub fn new(pkg: &'info IDLPackage) -> (r: Self)
        ensures
            r@ == pkg@,
    {
        CodegenContext { pkg }
    }

    /// The generator of the units of a module.
    pub fn get_module_generator(&self, value: &'info IDLModule) -> (r: IDLModuleGenerator<'info>)
        ensures
            r.module == value,
            r.functions() == function_types(value@),
    {
        IDLModuleGenerator::new(value)
    }

    /// The package.
    pub fn package(&self) -> (r: &'info IDLPackage)
        ensures
            r@ == self@,
    {
        self.pkg
    }

    /// Generates the text for a value.
    pub fn generate<T: Codegen>(&self, value: &T) -> (r: Result<CodeText, GenError>)
        ensures
            is_code_result(r, value.typescript(self@)),
    {
        match value.generate_typescript(self) {
            Ok(s) => Ok(CodeText(s)),
            Err(e) => Err(e),
        }
    }

    /// Generates the text for each value and joins those that are not empty. Fails
    /// with the error of the first value that fails.
    pub fn try_join_with_separator<T: Codegen>(&self, values: &Vec<T>, separator: &str) -> (r:
        Result<CodeText, GenError>)
        ensures
            is_code_result(r, joined_typescript(values@, self@, separator@)),
    {
        let mut parts: Vec<CodeText> = Vec::new();
        let mut i: usize = 0;
        proof {
            assert(texts(parts@) =~= Seq::<Seq<char>>::empty());
        }
        while i < values.len()
            invariant
                i <= values@.len(),
                all_typescript(values@.take(i as int), self@) == Ok::<Seq<Seq<char>>, GenError>(
                    texts(parts@),
                ),
            decreases values.len() - i,
        {
            proof {
                let next = values@.take(i + 1);
                assert(next.drop_last() =~= values@.take(i as int));
                assert(next.last() == values@[i as int]);
            }
            match self.generate(&values[i]) {
                Ok(t) => {
                    proof {
                        assert(texts(parts@.push(t)) =~= texts(parts@).push(t@));
                    }
                    parts.push(t);
                },
                Err(e) => {
                    proof {
                        lemma_all_typescript_fails(values@, self@, i + 1);
                    }
                    return Err(e);
                },
            }
            i = i + 1;
        }
        proof {
            assert(values@.take(values@.len() as int) =~= values@);
        }
        CodeText::try_join_with_separator(&parts, separator)
    }

    /// Generates the text for each value and joins those that are not empty, with an
    /// empty line between each two.
    pub fn try_join<T: Codegen>(&self, values: &Vec<T>) -> (r: Result<CodeText, GenError>)
        ensures
            is_code_result(r, joined_typescript(values@, self@, "\n\n"@)),
    {
        self.try_join_with_separator(values, "\n\n")
    }
}

/// Where the first `n` values fail, all of them fail with the same error.
pub proof fn lemma_all_typescript_fails<T: Codegen>(values: Seq<T>, pkg: PackageModel, n: int)
    requires
        0 <= n <= values.len(),
        all_typescript(values.take(n), pkg) is Err,
    ensures
        all_typescript(values, pkg) == all_typescript(values.take(n), pkg),
    decreases values.len() - n,
{
    if n < values.len() {
        let next = values.take(n + 1);
        assert(next.drop_last() =~= values.take(n));
        lemma_all_typescript_fails(values, pkg, n + 1);
    } else {
        assert(values.take(n) =~= values);
    }
}

/// The results of `f` on the items, in their order, or the error of the first item on
/// which `f` fails.
pub open spec fn all_texts<V>(
    items: Seq<V>,
    f: spec_fn(V) -> Result<Seq<char>, GenError>,
) -> Result<Seq<Seq<char>>, GenError>
    decreases items.len(),
{
    if items.len() == 0 {
        Ok(Seq::empty())
    } else {
        match all_texts(items.drop_last(), f) {
            Err(e) => Err(e),
            Ok(done) => match f(items.last()) {
                Err(e) => Err(e),
                Ok(t) => Ok(done.push(t)),
            },
        }
    }
}

/// The results of `f` on the items that are not empty, joined by the separator, or
/// the error of the first item on which `f` fails.
pub open spec fn joined_texts<V>(
    items: Seq<V>,
    f: spec_fn(V) -> Result<Seq<char>, GenError>,
    separator: Seq<char>,
) -> Result<Seq<char>, GenError> {
    match all_texts(items, f) {
        Err(e) => Err(e),
        Ok(parts) => Ok(join(non_empty(parts), separator)),
    }
}

/// Where `f` fails on one of the first `n` items, it fails alike on all of them.
pub proof fn lemma_all_texts_fail<V>(
    items: Seq<V>,
    f: spec_fn(V) -> Result<Seq<char>, GenError>,
    n: int,
)
    requires
        0 <= n <= items.len(),
        all_texts(items.take(n), f) is Err,
    ensures
        all_texts(items, f) == all_texts(items.take(n), f),
    decreases items.len() - n,
{
    if n < items.len() {
        assert(items.take(n + 1).drop_last() =~= items.take(n));
        lemma_all_texts_fail(items, f, n + 1);
    } else {
        assert(items.take(n) =~= items);
    }
}

/// Where the text of each value is what `f` gives for its model, the texts of all
/// values are what `f` gives for all models.
pub proof fn lemma_all_typescript_is<T: Codegen, V>(
    values: Seq<T>,
    pkg: PackageModel,
    models: Seq<V>,
    f: spec_fn(V) -> Result<Seq<char>, GenError>,
)
    requires
        values.len() == models.len(),
        forall|i: int| 0 <= i < values.len() ==> (#[trigger] values[i]).typescript(pkg) == f(models[i]),
    ensures
        all_typescript(values, pkg) == all_texts(models, f),
        forall|separator: Seq<char>| #[trigger]
            joined_typescript(values, pkg, separator) == joined_texts(models, f, separator),
    decreases values.len(),
{
    if values.len() > 0 {
        lemma_all_typescript_is(values.drop_last(), pkg, models.drop_last(), f);
        assert(values.last() == values[values.len() - 1]);
    }
}

/// The results of `f` on the items come one for each item and in the order of the
/// items.
pub proof fn lemma_all_texts_in_order<V>(
    items: Seq<V>,
    f: spec_fn(V) -> Result<Seq<char>, GenError>,
)
    requires
        all_texts(items, f) is Ok,
    ensures
        all_texts(items, f)->Ok_0.len() == items.len(),
        forall|i: int|
            0 <= i < items.len() ==> f(#[trigger] items[i]) == Ok::<Seq<char>, GenError>(
                all_texts(items, f)->Ok_0[i],
            ),
    decreases items.len(),
{
    if items.len() > 0 {
        lemma_all_texts_in_order(items.drop_last(), f);
        assert forall|i: int| 0 <= i < items.len() implies f(#[trigger] items[i]) == Ok::<
            Seq<char>,
            GenError,
        >(all_texts(items, f)->Ok_0[i]) by {
            if i < items.len() - 1 {
                assert(items[i] == items.drop_last()[i]);
            }
        }
    }
}

/// Where no part is empty, the parts that are not empty are all the parts.
pub proof fn lemma_non_empty_all(parts: Seq<Seq<char>>)
    requires
        forall|i: int| 0 <= i < parts.len() ==> (#[trigger] parts[i]).len() > 0,
    ensures
        non_empty(parts) == parts,
    decreases parts.len(),
{
    if parts.len() > 0 {
        lemma_non_empty_all(parts.drop_last());
        assert(parts.drop_last().push(parts.last()) =~= parts);
    }
}

/// The declaration of a constant is not empty.
pub proof fn lemma_const_export_not_empty(name: Seq<char>, json: Seq<char>)
    ensures
        const_export_text(name, json).len() > 0,
{
    reveal_strlit(" as const;");
}

} // verus!
