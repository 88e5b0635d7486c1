//! The units that are generated for a package, and the files that hold them.
use crate::case::{snake_case_of, to_snake_case};
use crate::error::GenError;
use crate::idl::{IDLModule, IDLPackage, ModuleModel, PackageModel};
use crate::idl::{distinct_modules, StructModel};
use crate::idl_module::{
    directory_of, file_models, function_types, in_a_directory, is_files_result,
    lemma_module_file_paths, module_files, FileModel, GeneratedFile, IDLModuleGenerator,
};
use crate::text::{concat3, join, join_strings, lacks, lemma_find_char_is, strs};
use crate::{
    const_export_text, documented, module_documented, named_reexport_text, CodeText,
    CodegenContext,
};
use vstd::prelude::*;
use vstd::string::*;

verus! {

/// The statement that exports the index of the module `name` under the prefix.
pub open spec fn module_reexport_line(prefix: Seq<char>, name: Seq<char>) -> Seq<char> {
    "export * as "@ + prefix + "_"@ + name + " from \"./"@ + name + "/index.js\";"@
}

/// The statements that export the indexes of the modules, one on each line.
pub open spec fn module_reexports_text(prefix: Seq<char>, names: Seq<Seq<char>>) -> Seq<char> {
    join(Seq::new(names.len(), |i: int| module_reexport_line(prefix, names[i])), "\n"@)
}

/// The statements that export the indexes of the modules, each under the prefix and
/// the name of the module. It does not fail.
pub fn generate_module_reexports(prefix: &str, module_names: &Vec<String>) -> (r: Result<
    CodeText,
    GenError,
>)
    ensures
        r matches Ok(t) && t@ == module_reexports_text(prefix@, strs(module_names@)),
{
    let mut lines: Vec<String> = Vec::new();
    let mut i: usize = 0;
    while i < module_names.len()
        invariant
            i <= module_names@.len(),
            lines@.len() == i,
            forall|k: int|
                0 <= k < i ==> (#[trigger] lines@[k])@ == module_reexport_line(
                    prefix@,
                    module_names@[k]@,
                ),
        decreases module_names.len() - i,
    {
        let name = module_names[i].as_str();
        let mut s = String::from_str("export * as ");
        s.append(prefix);
        s.append("_");
        s.append(name);
        s.append(" from \"./");
        s.append(name);
        s.append("/index.js\";");
        lines.push(s);
        i = i + 1;
    }
    proof {
        assert(strs(lines@) =~= Seq::new(
            module_names@.len(),
            |i: int| module_reexport_line(prefix@, strs(module_names@)[i]),
        ));
    }
    Ok(CodeText::new(join_strings(&lines, "\n").as_str()))
}

/// The models of a sequence of modules that are held by reference.
pub open spec fn module_ref_models(modules: Seq<&IDLModule>) -> Seq<ModuleModel> {
    Seq::new(modules.len(), |i: int| (*modules[i])@)
}

/// The names of the modules, in their order.
pub open spec fn module_names(modules: Seq<ModuleModel>) -> Seq<Seq<char>> {
    Seq::new(modules.len(), |i: int| modules[i].module_id.name)
}

/// The modules that units are generated for: the package's own, and behind them the
/// modules it depends on where those are asked for.
pub open spec fn modules_to_generate(pkg: PackageModel, with_dependencies: bool) -> Seq<
    ModuleModel,
> {
    if with_dependencies {
        pkg.modules + pkg.dependencies
    } else {
        pkg.modules
    }
}

/// The index unit of a package, given the prefix of its exports: the exports of the
/// indexes of the modules and of the map of errors.
pub open spec fn package_index_with(
    prefix: Seq<char>,
    name: Seq<char>,
    modules: Seq<ModuleModel>,
) -> Seq<char> {
    module_documented(
        "This module contains generated types and helper functions for the package `"@ + name
            + "`."@,
        module_reexports_text(prefix, module_names(modules)) + "\n"@ + named_reexport_text(
            "errmap as "@ + prefix + "_errmap"@,
            "./errmap.js"@,
        ),
    )
}

/// The unit that holds the map of all errors of a package.
pub open spec fn errmap_module_text(pkg: PackageModel) -> Seq<char> {
    module_documented(
        "Module containing all errors in this package."@,
        documented("All errors in this package."@, const_export_text("errmap"@, pkg.errors_json)),
    )
}

/// The modules that units are generated for: references to the package's own modules
/// in their order, and behind them to the modules it depends on where
/// `with_dependencies` asks for them.
pub fn get_modules_to_generate<'a>(idl: &'a IDLPackage, with_dependencies: bool) -> (r: Vec<
    &'a IDLModule,
>)
    ensures
        module_ref_models(r@) == modules_to_generate(idl@, with_dependencies),
{
    let mut modules: Vec<&'a IDLModule> = Vec::new();
    let mut i: usize = 0;
    while i < idl.modules.len()
        invariant
            i <= idl.modules@.len(),
            modules@.len() == i,
            forall|k: int| 0 <= k < i ==> (*#[trigger] modules@[k])@ == idl.modules@[k]@,
        decreases idl.modules.len() - i,
    {
        modules.push(&idl.modules[i]);
        i = i + 1;
    }
    if with_dependencies {
        let mut j: usize = 0;
        while j < idl.dependencies.len()
            invariant
                j <= idl.dependencies@.len(),
                modules@.len() == idl.modules@.len() + j,
                forall|k: int|
                    0 <= k < idl.modules@.len() ==> (*#[trigger] modules@[k])@ == idl.modules@[k]@,
                forall|k: int|
                    0 <= k < j ==> (*#[trigger] modules@[idl.modules@.len() + k])@
                        == idl.dependencies@[k]@,
            decreases idl.dependencies.len() - j,
        {
            modules.push(&idl.dependencies[j]);
            j = j + 1;
        }
        proof {
            let all = idl@.modules + idl@.dependencies;
            let n = idl.modules@.len() as int;
            assert forall|t: int| 0 <= t < all.len() implies module_ref_models(modules@)[t]
                == all[t] by {
                if t >= n {
                    assert((*modules@[n + (t - n)])@ == idl.dependencies@[t - n]@);
                }
            }
            assert(module_ref_models(modules@) =~= all);
        }
    } else {
        proof {
            assert(module_ref_models(modules@) =~= idl@.modules);
        }
    }
    modules
}

/// The generator of the units of a package.
pub struct IDLPackageGenerator<'info> {
    pub idl: &'info IDLPackage,
    pub modules_to_generate: Vec<&'info IDLModule>,
    pub ctx: CodegenContext<'info>,
}

impl<'info> IDLPackageGenerator<'info> {
    /// The package.
    pub open spec fn package(&self) -> PackageModel {
        self.idl@
    }

    /// The modules that the generator holds.
    pub open spec fn modules(&self) -> Seq<ModuleModel> {
        module_ref_models(self.modules_to_generate@)
    }

    /// The generator for a package. With `with_dependencies` it holds the modules that
    /// the package depends on behind the package's own, without it only those.
    pub fn new(idl: &'info IDLPackage, with_dependencies: bool) -> (r: Self)
        ensures
            r.package() == idl@,
            r.ctx@ == idl@,
            r.modules() == modules_to_generate(idl@, with_dependencies),
    {
        IDLPackageGenerator {
            idl,
            modules_to_generate: get_modules_to_generate(idl, with_dependencies),
            ctx: CodegenContext::new(idl),
        }
    }

    /// The index unit of the package, given the prefix of its exports. It does not
    /// fail.
    pub fn index_with_prefix(&self, prefix: &str) -> (r: Result<CodeText, GenError>)
        ensures
            r matches Ok(t) && t@ == package_index_with(
                prefix@,
                self.package().name,
                self.modules(),
            ),
    {
        let mut names: Vec<String> = Vec::new();
        let mut i: usize = 0;
        while i < self.modules_to_generate.len()
            invariant
                i <= self.modules_to_generate@.len(),
                names@.len() == i,
                forall|k: int|
                    0 <= k < i ==> (#[trigger] names@[k])@ == self.modules()[k].module_id.name,
            decreases self.modules_to_generate.len() - i,
        {
            names.push(String::from_str(self.modules_to_generate[i].module_id.name()));
            i = i + 1;
        }
        proof {
            assert(strs(names@) =~= module_names(self.modules()));
        }
        let reexports = match generate_module_reexports(prefix, &names) {
            Ok(t) => t,
            Err(e) => {
                return Err(e);
            },
        };
        let errmap = CodeText::new_named_reexport(
            concat3("errmap as ", prefix, "_errmap").as_str(),
            "./errmap.js",
        );
        let index = CodeText::new(concat3(reexports.as_str(), "\n", errmap.as_str()).as_str());
        let docs = concat3(
            "This module contains generated types and helper functions for the package `",
            self.idl.name.as_str(),
            "`.",
        );
        Ok(index.module_docs(docs.as_str()))
    }

    /// The index unit of the package. The prefix of its exports is the name of the
    /// package in snake case. It does not fail.
    pub fn generate_index(&self) -> (r: Result<CodeText, GenError>)
        ensures
            r matches Ok(t) && t@ == package_index_with(
                snake_case_of(self.package().name),
                self.package().name,
                self.modules(),
            ),
    {
        let prefix = to_snake_case(self.idl.name.as_str());
        self.index_with_prefix(prefix.as_str())
    }

    /// The unit that holds the map of all errors of the package. It does not fail.
    pub fn generate_errmap_module(&self) -> (r: Result<CodeText, GenError>)
        ensures
            r matches Ok(t) && t@ == errmap_module_text(self.package()),
    {
        Ok(
            CodeText::new_const_export("errmap", self.idl.errors_json.as_str()).docs(
                "All errors in this package.",
            ).module_docs("Module containing all errors in this package."),
        )
    }

    /// The generators of the units of the modules that this generator holds.
    pub fn module_generators(&'info self) -> (r: Vec<IDLModuleGenerator<'info>>)
        ensures
            r@.len() == self.modules().len(),
            forall|k: int|
                0 <= k < r@.len() ==> (#[trigger] r@[k]).module@ == self.modules()[k] && r@[k].functions()
                    == function_types(self.modules()[k]),
    {
        let mut generators: Vec<IDLModuleGenerator<'info>> = Vec::new();
        let mut i: usize = 0;
        while i < self.modules_to_generate.len()
            invariant
                i <= self.modules_to_generate@.len(),
                generators@.len() == i,
                forall|k: int|
                    0 <= k < i ==> (#[trigger] generators@[k]).module@ == self.modules()[k]
                        && generators@[k].functions() == function_types(self.modules()[k]),
            decreases self.modules_to_generate.len() - i,
        {
            generators.push(self.ctx.get_module_generator(self.modules_to_generate[i]));
            i = i + 1;
        }
        generators
    }
}

/// The files of the modules, in their order, or the error of the first module that
/// has none.
pub open spec fn all_module_files(modules: Seq<ModuleModel>, table: Seq<StructModel>) -> Result<
    Seq<FileModel>,
    GenError,
>
    decreases modules.len(),
{
    if modules.len() == 0 {
        Ok(Seq::empty())
    } else {
        match all_module_files(modules.drop_last(), table) {
            Err(e) => Err(e),
            Ok(done) => match module_files(modules.last(), table) {
                Err(e) => Err(e),
                Ok(files) => Ok(done + files),
            },
        }
    }
}

/// The files of the package named `name` for the given modules: the files of each
/// module, the map of errors and the index of the package.
pub open spec fn package_files_for(
    name: Seq<char>,
    errors_json: Seq<char>,
    table: Seq<StructModel>,
    modules: Seq<ModuleModel>,
) -> Result<Seq<FileModel>, GenError> {
    match all_module_files(modules, table) {
        Err(e) => Err(e),
        Ok(files) => Ok(
            files + seq![
                FileModel {
                    path: "errmap.ts"@,
                    content: module_documented(
                        "Module containing all errors in this package."@,
                        documented(
                            "All errors in this package."@,
                            const_export_text("errmap"@, errors_json),
                        ),
                    ),
                },
                FileModel {
                    path: "index.ts"@,
                    content: package_index_with(snake_case_of(name), name, modules),
                },
            ],
        ),
    }
}

/// The files of a package. Without `with_dependencies` there are files for the
/// package's own modules only.
pub open spec fn package_files(pkg: PackageModel, with_dependencies: bool) -> Result<
    Seq<FileModel>,
    GenError,
> {
    package_files_for(
        pkg.name,
        pkg.errors_json,
        pkg.structs,
        modules_to_generate(pkg, with_dependencies),
    )
}

/// Where the files of the first `n` modules fail, those of all of them fail alike.
pub proof fn lemma_all_module_files_fail(
    modules: Seq<ModuleModel>,
    table: Seq<StructModel>,
    n: int,
)
    requires
        0 <= n <= modules.len(),
        all_module_files(modules.take(n), table) is Err,
    ensures
        all_module_files(modules, table) == all_module_files(modules.take(n), table),
    decreases modules.len() - n,
{
    if n < modules.len() {
        assert(modules.take(n + 1).drop_last() =~= modules.take(n));
        lemma_all_module_files_fail(modules, table, n + 1);
    } else {
        assert(modules.take(n) =~= modules);
    }
}

impl<'info> IDLPackageGenerator<'info> {
    /// The files of the package for the modules that the generator holds, or the
    /// error of the first type that has no form.
    pub fn generate_files(&self) -> (r: Result<Vec<GeneratedFile>, GenError>)
        ensures
            is_files_result(
                r,
                package_files_for(
                    self.package().name,
                    self.package().errors_json,
                    self.ctx@.structs,
                    self.modules(),
                ),
            ),
    {
        let ghost modules = self.modules();
        let ghost table = self.ctx@.structs;
        let mut files: Vec<GeneratedFile> = Vec::new();
        let mut i: usize = 0;
        proof {
            assert(file_models(files@) =~= Seq::<FileModel>::empty());
        }
        while i < self.modules_to_generate.len()
            invariant
                i <= self.modules_to_generate@.len(),
                modules == self.modules(),
                table == self.ctx@.structs,
                all_module_files(modules.take(i as int), table) == Ok::<Seq<FileModel>, GenError>(
                    file_models(files@),
                ),
            decreases self.modules_to_generate.len() - i,
        {
            proof {
                assert(modules.take(i + 1).drop_last() =~= modules.take(i as int));
                assert(modules.take(i + 1).last() == (*self.modules_to_generate@[i as int])@);
            }
            let generator = self.ctx.get_module_generator(self.modules_to_generate[i]);
            match generator.generate_files(&self.ctx) {
                Ok(mut more) => {
                    let ghost before = file_models(files@);
                    let ghost added = file_models(more@);
                    files.append(&mut more);
                    proof {
                        assert(file_models(files@) =~= before + added);
                    }
                },
                Err(e) => {
                    proof {
                        lemma_all_module_files_fail(modules, table, i + 1);
                    }
                    return Err(e);
                },
            }
            i = i + 1;
        }
        proof {
            assert(modules.take(self.modules_to_generate@.len() as int) =~= modules);
        }
        let errmap = match self.generate_errmap_module() {
            Ok(t) => t,
            Err(e) => {
                return Err(e);
            },
        };
        let index = match self.generate_index() {
            Ok(t) => t,
            Err(e) => {
                return Err(e);
            },
        };
        let ghost before = file_models(files@);
        files.push(
            GeneratedFile { path: String::from_str("errmap.ts"), content: errmap.to_string() },
        );
        files.push(
            GeneratedFile { path: String::from_str("index.ts"), content: index.to_string() },
        );
        proof {
            assert(file_models(files@) =~= before + seq![
                FileModel { path: "errmap.ts"@, content: errmap@ },
                FileModel { path: "index.ts"@, content: index@ },
            ]);
        }
        Ok(files)
    }
}

/// The files of a package: for each of its modules, and for those it depends on where
/// `with_dependencies` asks for them, the entry unit, the description, the errors unit
/// and the index; then the map of errors and the index of the package. Where a type
/// has no form, the error of the first such type. Each module's files lie in the
/// directory named after the module, so where the modules can be told apart by their
/// directories no two files have the same path.
pub fn generate_package_files(idl: &IDLPackage, with_dependencies: bool) -> (r: Result<
    Vec<GeneratedFile>,
    GenError,
>)
    ensures
        is_files_result(r, package_files(idl@, with_dependencies)),
        distinct_directories(modules_to_generate(idl@, with_dependencies)) ==> (r matches Ok(v)
            ==> forall|k: int, l: int| 0 <= k < l < v@.len() ==> v@[k]@.path != v@[l]@.path),
{
    let generator = IDLPackageGenerator::new(idl, with_dependencies);
    let r = generator.generate_files();
    proof {
        let modules = modules_to_generate(idl@, with_dependencies);
        if distinct_directories(modules) && r is Ok {
            lemma_package_paths_distinct(idl@.name, idl@.errors_json, idl@.structs, modules);
            let v = r->Ok_0;
            assert forall|k: int, l: int| 0 <= k < l < v@.len() implies v@[k]@.path
                != v@[l]@.path by {
                assert(file_models(v@)[k] == v@[k]@);
                assert(file_models(v@)[l] == v@[l]@);
            }
        }
    }
    r
}

/// Without dependencies, the files of a package do not depend on the modules that the
/// package depends on: there is no file for any of them.
pub proof fn lemma_dependencies_are_skipped(pkg: PackageModel, dependencies: Seq<ModuleModel>)
    ensures
        package_files(PackageModel { dependencies, ..pkg }, false) == package_files(pkg, false),
        package_files(pkg, false) == package_files_for(
            pkg.name,
            pkg.errors_json,
            pkg.structs,
            pkg.modules,
        ),
{
}

/// Whether the modules can be told apart by their directories: no name holds a `/`
/// and no two modules have the same name.
pub open spec fn distinct_directories(modules: Seq<ModuleModel>) -> bool {
    &&& forall|i: int| 0 <= i < modules.len() ==> lacks((#[trigger] modules[i]).module_id.name, '/')
    &&& forall|i: int, j: int|
        0 <= i < j < modules.len() ==> modules[i].module_id.name != modules[j].module_id.name
}

/// Whether one of the modules has the name `directory`.
pub open spec fn is_directory_of(modules: Seq<ModuleModel>, directory: Seq<char>) -> bool {
    exists|i: int| 0 <= i < modules.len() && (#[trigger] modules[i]).module_id.name == directory
}

/// Modules that differ in their identifiers and stand at one address differ in their
/// names.
pub proof fn lemma_one_address_distinct_names(modules: Seq<ModuleModel>)
    requires
        distinct_modules(modules),
        forall|i: int, j: int|
            0 <= i < j < modules.len() ==> modules[i].module_id.address
                == modules[j].module_id.address,
    ensures
        forall|i: int, j: int|
            0 <= i < j < modules.len() ==> modules[i].module_id.name != modules[j].module_id.name,
{
}

/// The files of modules that can be told apart by their directories: each lies in the
/// directory of one of the modules, and no two have the same path.
pub proof fn lemma_module_paths_distinct(modules: Seq<ModuleModel>, table: Seq<StructModel>)
    requires
        all_module_files(modules, table) is Ok,
        distinct_directories(modules),
    ensures
        forall|k: int|
            0 <= k < all_module_files(modules, table)->Ok_0.len() ==> in_a_directory(
                (#[trigger] all_module_files(modules, table)->Ok_0[k]).path,
            ) && is_directory_of(
                modules,
                directory_of(all_module_files(modules, table)->Ok_0[k].path),
            ),
        forall|k: int, l: int|
            0 <= k < l < all_module_files(modules, table)->Ok_0.len() ==> all_module_files(
                modules,
                table,
            )->Ok_0[k].path != all_module_files(modules, table)->Ok_0[l].path,
    decreases modules.len(),
{
    if modules.len() > 0 {
        let front = modules.drop_last();
        let last = modules.last();
        let done = all_module_files(front, table)->Ok_0;
        let more = module_files(last, table)->Ok_0;
        let files = all_module_files(modules, table)->Ok_0;
        assert(files == done + more);
        assert forall|i: int| 0 <= i < front.len() implies front[i] == modules[i] by {}
        assert(distinct_directories(front));
        lemma_module_paths_distinct(front, table);
        lemma_module_file_paths(last, function_types(last), table);
        assert forall|k: int| 0 <= k < files.len() implies in_a_directory(
            (#[trigger] files[k]).path,
        ) && is_directory_of(modules, directory_of(files[k].path)) by {
            if k < done.len() {
                assert(files[k] == done[k]);
                let i = choose|i: int|
                    0 <= i < front.len() && (#[trigger] front[i]).module_id.name == directory_of(
                        done[k].path,
                    );
                assert(modules[i].module_id.name == directory_of(files[k].path));
            } else {
                assert(files[k] == more[k - done.len()]);
                assert(modules[modules.len() - 1].module_id.name == directory_of(files[k].path));
            }
        }
        assert forall|k: int, l: int| 0 <= k < l < files.len() implies files[k].path
            != files[l].path by {
            if l < done.len() {
                assert(files[k] == done[k] && files[l] == done[l]);
            } else if k >= done.len() {
                assert(files[k] == more[k - done.len()] && files[l] == more[l - done.len()]);
            } else {
                assert(files[k] == done[k]);
                assert(files[l] == more[l - done.len()]);
                let i = choose|i: int|
                    0 <= i < front.len() && (#[trigger] front[i]).module_id.name == directory_of(
                        done[k].path,
                    );
                assert(modules[i].module_id.name != modules[modules.len() - 1].module_id.name);
            }
        }
    }
}

/// The files of a package whose modules can be told apart by their directories have
/// paths that differ from one another: no file takes the place of another.
pub proof fn lemma_package_paths_distinct(
    name: Seq<char>,
    errors_json: Seq<char>,
    table: Seq<StructModel>,
    modules: Seq<ModuleModel>,
)
    requires
        package_files_for(name, errors_json, table, modules) is Ok,
        distinct_directories(modules),
    ensures
        forall|k: int, l: int|
            0 <= k < l < package_files_for(name, errors_json, table, modules)->Ok_0.len()
                ==> package_files_for(name, errors_json, table, modules)->Ok_0[k].path
                != package_files_for(name, errors_json, table, modules)->Ok_0[l].path,
{
    reveal_strlit("errmap.ts");
    reveal_strlit("index.ts");
    let inner = all_module_files(modules, table)->Ok_0;
    let files = package_files_for(name, errors_json, table, modules)->Ok_0;
    lemma_module_paths_distinct(modules, table);
    lemma_find_char_is("errmap.ts"@, '/', 9);
    lemma_find_char_is("index.ts"@, '/', 8);
    assert(files.len() == inner.len() + 2);
    assert(files[inner.len() as int].path == "errmap.ts"@);
    assert(files[inner.len() as int + 1].path == "index.ts"@);
    assert forall|k: int, l: int| 0 <= k < l < files.len() implies files[k].path
        != files[l].path by {
        if k < inner.len() {
            assert(files[k] == inner[k]);
            if l < inner.len() {
                assert(files[l] == inner[l]);
            }
        }
    }
}

} // verus!
