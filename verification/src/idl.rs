//! The interface description of a package: modules, structs, functions, errors and
//! the types of fields and arguments, each with its mathematical model.
use crate::format::opt_str;
use crate::text::{concat3, str_eq, strs};
use vstd::prelude::*;
use vstd::string::*;

verus! {

/// The identifier of a module: the address it is published at, as a hex literal such
/// as `0x1`, and its name.
#[derive(Debug, PartialEq, Eq)]
pub struct ModuleId {
    pub address: String,
    pub name: String,
}

/// The model of a `ModuleId`.
pub struct ModuleIdModel {
    pub address: Seq<char>,
    pub name: Seq<char>,
}

impl View for ModuleId {
    type V = ModuleIdModel;

    open spec fn view(&self) -> ModuleIdModel {
        ModuleIdModel { address: self.address@, name: self.name@ }
    }
}

impl ModuleIdModel {
    /// The address and the name, as in `0x1::Coin`.
    pub open spec fn full_name(self) -> Seq<char> {
        self.address + "::"@ + self.name
    }
}

impl ModuleId {
    pub fn new(address: &str, name: &str) -> (r: ModuleId)
        ensures
            r@ == (ModuleIdModel { address: address@, name: name@ }),
    {
        ModuleId { address: String::from_str(address), name: String::from_str(name) }
    }

    /// The name of the module.
    pub fn name(&self) -> (r: &str)
        ensures
            r@ == self@.name,
    {
        self.name.as_str()
    }

    /// The address of the module, as a hex literal.
    pub fn address(&self) -> (r: &str)
        ensures
            r@ == self@.address,
    {
        self.address.as_str()
    }

    /// The address and the name, as in `0x1::Coin`.
    pub fn short_str_lossless(&self) -> (r: String)
        ensures
            r@ == self@.full_name(),
    {
        concat3(self.address.as_str(), "::", self.name.as_str())
    }

    /// Whether two identifiers name the same module.
    pub fn same(&self, other: &ModuleId) -> (r: bool)
        ensures
            r == (self@ == other@),
    {
        str_eq(self.address.as_str(), other.address.as_str()) && str_eq(
            self.name.as_str(),
            other.name.as_str(),
        )
    }
}

/// The identifier of a struct: its module and its name within the module.
#[derive(Debug, PartialEq, Eq)]
pub struct StructId {
    pub module_id: ModuleId,
    pub name: String,
}

/// The model of a `StructId`.
pub struct StructIdModel {
    pub module_id: ModuleIdModel,
    pub name: Seq<char>,
}

impl View for StructId {
    type V = StructIdModel;

    open spec fn view(&self) -> StructIdModel {
        StructIdModel { module_id: self.module_id@, name: self.name@ }
    }
}

impl StructIdModel {
    /// The module and the name, as in `0x1::Coin::Balance`.
    pub open spec fn full_name(self) -> Seq<char> {
        self.module_id.full_name() + "::"@ + self.name
    }
}

impl StructId {
    pub fn new(address: &str, module: &str, name: &str) -> (r: StructId)
        ensures
            r@ == (StructIdModel {
                module_id: ModuleIdModel { address: address@, name: module@ },
                name: name@,
            }),
    {
        StructId { module_id: ModuleId::new(address, module), name: String::from_str(name) }
    }

    /// The module and the name, as in `0x1::Coin::Balance`.
    pub fn full_name(&self) -> (r: String)
        ensures
            r@ == self@.full_name(),
    {
        let m = self.module_id.short_str_lossless();
        concat3(m.as_str(), "::", self.name.as_str())
    }

    /// Whether two identifiers name the same struct.
    pub fn same(&self, other: &StructId) -> (r: bool)
        ensures
            r == (self@ == other@),
    {
        self.module_id.same(&other.module_id) && str_eq(self.name.as_str(), other.name.as_str())
    }
}

/// The type of a field or of an argument.
#[derive(Debug, PartialEq, Eq)]
pub enum IDLType {
    Bool,
    U8,
    U64,
    U128,
    Address,
    Signer,
    /// A vector of values of one type.
    Vector(Box<IDLType>),
    /// A struct, named, with the types bound to its type parameters.
    Struct(IDLStructType),
    /// The type parameter at the given position of the enclosing list.
    TypeParam(u16),
    /// Several values in a row.
    Tuple(Vec<IDLType>),
}

/// A reference to a struct with the types bound to its type parameters, by position.
#[derive(Debug, PartialEq, Eq)]
pub struct IDLStructType {
    pub name: StructId,
    pub ty_args: Vec<IDLType>,
}

/// The model of an `IDLType`.
pub enum TypeModel {
    Bool,
    U8,
    U64,
    U128,
    Address,
    Signer,
    Vector(Box<TypeModel>),
    Struct(StructIdModel, Seq<TypeModel>),
    TypeParam(nat),
    Tuple(Seq<TypeModel>),
}

/// The model of a type.
pub open spec fn type_model(ty: IDLType) -> TypeModel
    decreases ty,
{
    match ty {
        IDLType::Bool => TypeModel::Bool,
        IDLType::U8 => TypeModel::U8,
        IDLType::U64 => TypeModel::U64,
        IDLType::U128 => TypeModel::U128,
        IDLType::Address => TypeModel::Address,
        IDLType::Signer => TypeModel::Signer,
        IDLType::Vector(inner) => TypeModel::Vector(Box::new(type_model(*inner))),
        IDLType::Struct(st) => TypeModel::Struct(
            st.name@,
            Seq::new(
                st.ty_args@.len(),
                |i: int|
                    if 0 <= i < st.ty_args@.len() {
                        type_model(st.ty_args@[i])
                    } else {
                        TypeModel::Bool
                    },
            ),
        ),
        IDLType::TypeParam(i) => TypeModel::TypeParam(i as nat),
        IDLType::Tuple(items) => TypeModel::Tuple(
            Seq::new(
                items@.len(),
                |i: int|
                    if 0 <= i < items@.len() {
                        type_model(items@[i])
                    } else {
                        TypeModel::Bool
                    },
            ),
        ),
    }
}

impl View for IDLType {
    type V = TypeModel;

    open spec fn view(&self) -> TypeModel {
        type_model(*self)
    }
}

/// The models of a sequence of types.
pub open spec fn type_models(tys: Seq<IDLType>) -> Seq<TypeModel> {
    Seq::new(tys.len(), |i: int| tys[i]@)
}

/// A field of a struct.
#[derive(Debug, PartialEq, Eq)]
pub struct IDLField {
    pub name: String,
    pub doc: Option<String>,
    pub ty: IDLType,
}

/// The model of an `IDLField`.
pub struct FieldModel {
    pub name: Seq<char>,
    pub doc: Option<Seq<char>>,
    pub ty: TypeModel,
}

impl View for IDLField {
    type V = FieldModel;

    open spec fn view(&self) -> FieldModel {
        FieldModel { name: self.name@, doc: opt_str(self.doc), ty: self.ty@ }
    }
}

/// A type parameter of a struct. A phantom parameter is the type of no field.
#[derive(Debug, PartialEq, Eq)]
pub struct IDLTypeParam {
    pub name: String,
    pub is_phantom: bool,
}

/// The model of an `IDLTypeParam`.
pub struct TypeParamModel {
    pub name: Seq<char>,
    pub is_phantom: bool,
}

impl View for IDLTypeParam {
    type V = TypeParamModel;

    open spec fn view(&self) -> TypeParamModel {
        TypeParamModel { name: self.name@, is_phantom: self.is_phantom }
    }
}

/// The models of a sequence of type parameters.
pub open spec fn type_param_models(params: Seq<IDLTypeParam>) -> Seq<TypeParamModel> {
    Seq::new(params.len(), |i: int| params[i]@)
}

/// The models of a sequence of fields.
pub open spec fn field_models(fields: Seq<IDLField>) -> Seq<FieldModel> {
    Seq::new(fields.len(), |i: int| fields[i]@)
}

/// What the chain permits of the values of a struct.
#[derive(Clone, Copy, Debug, PartialEq, Eq, Structural)]
pub enum IDLAbility {
    Copy,
    Drop,
    Store,
    /// The struct can be a key into global storage: it is a resource.
    Key,
}

/// A struct definition.
#[derive(Debug, PartialEq, Eq)]
pub struct IDLStruct {
    pub name: StructId,
    pub doc: Option<String>,
    pub type_params: Vec<IDLTypeParam>,
    pub fields: Vec<IDLField>,
    pub abilities: Vec<IDLAbility>,
}

/// The model of an `IDLStruct`.
pub struct StructModel {
    pub name: StructIdModel,
    pub doc: Option<Seq<char>>,
    pub type_params: Seq<TypeParamModel>,
    pub fields: Seq<FieldModel>,
    pub abilities: Seq<IDLAbility>,
}

impl View for IDLStruct {
    type V = StructModel;

    open spec fn view(&self) -> StructModel {
        StructModel {
            name: self.name@,
            doc: opt_str(self.doc),
            type_params: type_param_models(self.type_params@),
            fields: field_models(self.fields@),
            abilities: self.abilities@,
        }
    }
}

impl StructModel {
    /// Whether the struct has the ability `Key`.
    pub open spec fn is_resource(self) -> bool {
        self.abilities.contains(IDLAbility::Key)
    }
}

impl IDLStruct {
    /// Whether the struct has the ability `Key`.
    pub fn is_resource(&self) -> (r: bool)
        ensures
            r == self@.is_resource(),
    {
        let mut i: usize = 0;
        while i < self.abilities.len()
            invariant
                i <= self.abilities@.len(),
                forall|k: int| 0 <= k < i ==> self.abilities@[k] != IDLAbility::Key,
            decreases self.abilities.len() - i,
        {
            if self.abilities[i] == IDLAbility::Key {
                return true;
            }
            i = i + 1;
        }
        false
    }
}

/// The models of a sequence of structs.
pub open spec fn struct_models(structs: Seq<IDLStruct>) -> Seq<StructModel> {
    Seq::new(structs.len(), |i: int| structs[i]@)
}

/// An argument of a script function, with the comment that documents it.
#[derive(Debug, PartialEq, Eq)]
pub struct IDLArgument {
    pub name: String,
    pub doc: Option<String>,
    pub ty: IDLType,
}

/// The model of an `IDLArgument`.
pub struct ArgumentModel {
    pub name: Seq<char>,
    pub doc: Option<Seq<char>>,
    pub ty: TypeModel,
}

impl View for IDLArgument {
    type V = ArgumentModel;

    open spec fn view(&self) -> ArgumentModel {
        ArgumentModel { name: self.name@, doc: opt_str(self.doc), ty: self.ty@ }
    }
}

/// The models of a sequence of arguments.
pub open spec fn argument_models(args: Seq<IDLArgument>) -> Seq<ArgumentModel> {
    Seq::new(args.len(), |i: int| args[i]@)
}

/// A function that a transaction can call.
#[derive(Debug, PartialEq, Eq)]
pub struct IDLScriptFunction {
    pub name: String,
    pub doc: Option<String>,
    pub ty_args: Vec<String>,
    pub args: Vec<IDLArgument>,
}

/// The model of an `IDLScriptFunction`.
pub struct FunctionModel {
    pub name: Seq<char>,
    pub doc: Option<Seq<char>>,
    pub ty_args: Seq<Seq<char>>,
    pub args: Seq<ArgumentModel>,
}

impl View for IDLScriptFunction {
    type V = FunctionModel;

    open spec fn view(&self) -> FunctionModel {
        FunctionModel {
            name: self.name@,
            doc: opt_str(self.doc),
            ty_args: strs(self.ty_args@),
            args: argument_models(self.args@),
        }
    }
}

/// The models of a sequence of functions.
pub open spec fn function_models(functions: Seq<IDLScriptFunction>) -> Seq<FunctionModel> {
    Seq::new(functions.len(), |i: int| functions[i]@)
}

/// An error that a module can abort with. `json` is the error as a JSON object that
/// holds its code beside its name and documentation.
#[derive(Debug, PartialEq, Eq)]
pub struct IDLError {
    pub code: u64,
    pub name: String,
    pub doc: Option<String>,
    pub json: String,
}

/// The model of an `IDLError`.
pub struct ErrorModel {
    pub code: nat,
    pub name: Seq<char>,
    pub doc: Option<Seq<char>>,
    pub json: Seq<char>,
}

impl View for IDLError {
    type V = ErrorModel;

    open spec fn view(&self) -> ErrorModel {
        ErrorModel {
            code: self.code as nat,
            name: self.name@,
            doc: opt_str(self.doc),
            json: self.json@,
        }
    }
}

/// The models of a sequence of errors.
pub open spec fn error_models(errors: Seq<IDLError>) -> Seq<ErrorModel> {
    Seq::new(errors.len(), |i: int| errors[i]@)
}

/// A module: its structs, its script functions and its errors, the errors in the order
/// of their codes. The three JSON texts are the module, the map of its errors by code
/// and the map of its functions by name, as the description's own serialiser writes
/// them.
#[derive(Debug, PartialEq, Eq)]
pub struct IDLModule {
    pub module_id: ModuleId,
    pub doc: Option<String>,
    pub functions: Vec<IDLScriptFunction>,
    pub structs: Vec<IDLStruct>,
    pub errors: Vec<IDLError>,
    pub json: String,
    pub errors_json: String,
    pub functions_json: String,
}

/// The model of an `IDLModule`.
pub struct ModuleModel {
    pub module_id: ModuleIdModel,
    pub doc: Option<Seq<char>>,
    pub functions: Seq<FunctionModel>,
    pub structs: Seq<StructModel>,
    pub errors: Seq<ErrorModel>,
    pub json: Seq<char>,
    pub errors_json: Seq<char>,
    pub functions_json: Seq<char>,
}

impl View for IDLModule {
    type V = ModuleModel;

    open spec fn view(&self) -> ModuleModel {
        ModuleModel {
            module_id: self.module_id@,
            doc: opt_str(self.doc),
            functions: function_models(self.functions@),
            structs: struct_models(self.structs@),
            errors: error_models(self.errors@),
            json: self.json@,
            errors_json: self.errors_json@,
            functions_json: self.functions_json@,
        }
    }
}

/// The models of a sequence of modules.
pub open spec fn module_models(modules: Seq<IDLModule>) -> Seq<ModuleModel> {
    Seq::new(modules.len(), |i: int| modules[i]@)
}

/// A package: its own modules, the modules it depends on, every struct of both, and
/// the JSON text of the map of all its errors.
#[derive(Debug, PartialEq, Eq)]
pub struct IDLPackage {
    pub name: String,
    pub modules: Vec<IDLModule>,
    pub dependencies: Vec<IDLModule>,
    pub structs: Vec<IDLStruct>,
    pub errors_json: String,
}

/// The model of an `IDLPackage`.
pub struct PackageModel {
    pub name: Seq<char>,
    pub modules: Seq<ModuleModel>,
    pub dependencies: Seq<ModuleModel>,
    pub structs: Seq<StructModel>,
    pub errors_json: Seq<char>,
}

impl View for IDLPackage {
    type V = PackageModel;

    open spec fn view(&self) -> PackageModel {
        PackageModel {
            name: self.name@,
            modules: module_models(self.modules@),
            dependencies: module_models(self.dependencies@),
            structs: struct_models(self.structs@),
            errors_json: self.errors_json@,
        }
    }
}

/// Whether the codes of the errors go strictly up: the errors stand in the order of
/// their codes and no code occurs twice.
pub open spec fn codes_ascending(errors: Seq<ErrorModel>) -> bool {
    forall|i: int, j: int| 0 <= i < j < errors.len() ==> errors[i].code < errors[j].code
}

/// Whether no two of the modules have the same identifier.
pub open spec fn distinct_modules(modules: Seq<ModuleModel>) -> bool {
    forall|i: int, j: int|
        0 <= i < j < modules.len() ==> modules[i].module_id != modules[j].module_id
}

impl ModuleModel {
    /// Whether the module is as a description gives it: its errors in the order of
    /// their codes, each code once.
    pub open spec fn well_formed(self) -> bool {
        codes_ascending(self.errors)
    }
}

/// Whether the modules are well formed and no two of them have the same identifier.
pub open spec fn modules_well_formed(modules: Seq<ModuleModel>) -> bool {
    &&& distinct_modules(modules)
    &&& forall|i: int| 0 <= i < modules.len() ==> (#[trigger] modules[i]).well_formed()
}

impl PackageModel {
    /// Whether the package is as a description gives it: among its own modules, and
    /// among those it depends on, each identifier once, and every module well formed.
    pub open spec fn well_formed(self) -> bool {
        modules_well_formed(self.modules) && modules_well_formed(self.dependencies)
    }
}

impl IDLModule {
    /// Whether the errors of the module stand in the order of their codes, each code
    /// once.
    pub fn is_well_formed(&self) -> (r: bool)
        ensures
            r == self@.well_formed(),
    {
        let ghost errors = self@.errors;
        let mut k: usize = 1;
        while k < self.errors.len()
            invariant
                1 <= k,
                errors == self@.errors,
                forall|i: int, j: int|
                    0 <= i < j < k && j < errors.len() ==> errors[i].code < errors[j].code,
            decreases self.errors.len() - k,
        {
            if self.errors[k - 1].code >= self.errors[k].code {
                proof {
                    assert(errors[k - 1].code >= errors[k as int].code);
                }
                return false;
            }
            proof {
                assert forall|i: int, j: int| 0 <= i < j < k + 1 && j < errors.len() implies errors[i].code
                    < errors[j].code by {
                    if j == k && i < k - 1 {
                        assert(errors[i].code < errors[k - 1].code);
                    }
                }
            }
            k = k + 1;
        }
        true
    }
}

/// Whether the modules are well formed and no two of them have the same identifier.
pub fn are_well_formed(modules: &Vec<IDLModule>) -> (r: bool)
    ensures
        r == modules_well_formed(module_models(modules@)),
{
    let ghost models = module_models(modules@);
    let mut i: usize = 0;
    while i < modules.len()
        invariant
            i <= modules@.len(),
            models == module_models(modules@),
            forall|a: int, b: int| 0 <= a < b < i ==> models[a].module_id != models[b].module_id,
            forall|a: int| 0 <= a < i ==> (#[trigger] models[a]).well_formed(),
        decreases modules.len() - i,
    {
        if !modules[i].is_well_formed() {
            proof {
                assert(!models[i as int].well_formed());
            }
            return false;
        }
        let mut j: usize = 0;
        while j < i
            invariant
                j <= i < modules@.len(),
                models == module_models(modules@),
                forall|a: int| 0 <= a < j ==> models[a].module_id != models[i as int].module_id,
            decreases i - j,
        {
            if modules[j].module_id.same(&modules[i].module_id) {
                proof {
                    assert(models[j as int].module_id == models[i as int].module_id);
                }
                return false;
            }
            j = j + 1;
        }
        i = i + 1;
    }
    true
}

impl IDLPackage {
    /// Whether the package is as a description gives it.
    pub fn is_well_formed(&self) -> (r: bool)
        ensures
            r == self@.well_formed(),
    {
        are_well_formed(&self.modules) && are_well_formed(&self.dependencies)
    }
}

} // verus!
