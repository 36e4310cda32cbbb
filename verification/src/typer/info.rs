//! What the checker knows of the declared classes and enums.

use crate::typer::ast::{
    clone_params, clone_texts, clone_tys, tys, texts, GenericParam, ParamModel, Program, Ty, Type,
    views, Visibility,
};
use crate::typer::keyed::entries;
use vstd::prelude::*;

verus! {

/// Method metadata.
#[derive(Debug)]
pub struct MethodInfo {
    /// Method name.
    pub name: String,
    /// Generic parameters for this method.
    pub generic_params: Vec<GenericParam>,
    /// Return type.
    pub return_ty: Type,
    /// Parameter types.
    pub params: Vec<Type>,
    /// Whether this is an instance method.
    pub is_instance: bool,
    /// Member visibility.
    pub visibility: Visibility,
    /// Whether this method can be overridden by a subclass.
    pub is_virtual: bool,
    /// Whether this method overrides a base class method.
    pub is_override: bool,
    /// Whether this method is abstract (no body).
    pub is_abstract: bool,
    /// Whether this method is final (cannot be overridden or re-declared).
    pub is_final: bool,
    /// Declared checked exceptions: callers must catch each (or a
    /// supertype) or re-declare it. Empty = unchecked (the default).
    pub throws: Vec<String>,
    /// `async` method: returns `Task<T>`, body may await, calls spawn.
    pub is_async: bool,
}

/// Method metadata by value.
#[verifier::ext_equal]
pub ghost struct MethodModel {
    /// Method name.
    pub name: Seq<char>,
    /// Generic parameters.
    pub generics: Seq<ParamModel>,
    /// Return type.
    pub return_ty: Ty,
    /// Parameter types.
    pub params: Seq<Ty>,
    /// Instance method.
    pub is_instance: bool,
    /// Visibility.
    pub visibility: Visibility,
    /// Virtual method.
    pub is_virtual: bool,
    /// Overriding method.
    pub is_override: bool,
    /// Abstract method.
    pub is_abstract: bool,
    /// Final method.
    pub is_final: bool,
    /// Declared exceptions.
    pub throws: Seq<Seq<char>>,
    /// Async method.
    pub is_async: bool,
}

impl View for MethodInfo {
    type V = MethodModel;

    open spec fn view(&self) -> MethodModel {
        MethodModel {
            name: self.name@,
            generics: views(self.generic_params@),
            return_ty: self.return_ty@,
            params: tys(self.params@),
            is_instance: self.is_instance,
            visibility: self.visibility,
            is_virtual: self.is_virtual,
            is_override: self.is_override,
            is_abstract: self.is_abstract,
            is_final: self.is_final,
            throws: texts(self.throws@),
            is_async: self.is_async,
        }
    }
}

impl Clone for MethodInfo {
    fn clone(&self) -> (r: Self)
        ensures
            r@ == self@,
    {
        MethodInfo {
            name: self.name.clone(),
            generic_params: clone_params(&self.generic_params),
            return_ty: self.return_ty.clone(),
            params: clone_tys(&self.params),
            is_instance: self.is_instance,
            visibility: self.visibility,
            is_virtual: self.is_virtual,
            is_override: self.is_override,
            is_abstract: self.is_abstract,
            is_final: self.is_final,
            throws: clone_texts(&self.throws),
            is_async: self.is_async,
        }
    }
}

/// Property metadata.
#[derive(Debug)]
pub struct PropertyInfo {
    /// Property name.
    pub name: String,
    /// Property type.
    pub ty: Type,
    /// Member visibility.
    pub visibility: Visibility,
    /// Effective visibility of the getter accessor.
    pub getter_visibility: Visibility,
    /// Effective visibility of the setter accessor.
    pub setter_visibility: Visibility,
    /// Whether a getter accessor is declared.
    pub has_getter: bool,
    /// Whether a setter accessor is declared.
    pub has_setter: bool,
    /// Whether this is a static property.
    pub is_static: bool,
}

/// Property metadata by value.
pub ghost struct PropertyModel {
    /// Property name.
    pub name: Seq<char>,
    /// Property type.
    pub ty: Ty,
    /// Visibility.
    pub visibility: Visibility,
    /// Visibility of the getter.
    pub getter_visibility: Visibility,
    /// Visibility of the setter.
    pub setter_visibility: Visibility,
    /// Has a getter.
    pub has_getter: bool,
    /// Has a setter.
    pub has_setter: bool,
    /// Static property.
    pub is_static: bool,
}

impl View for PropertyInfo {
    type V = PropertyModel;

    open spec fn view(&self) -> PropertyModel {
        PropertyModel {
            name: self.name@,
            ty: self.ty@,
            visibility: self.visibility,
            getter_visibility: self.getter_visibility,
            setter_visibility: self.setter_visibility,
            has_getter: self.has_getter,
            has_setter: self.has_setter,
            is_static: self.is_static,
        }
    }
}

/// Constructor metadata.
#[derive(Debug)]
pub struct ConstructorInfo {
    /// Parameter types in declaration order.
    pub params: Vec<Type>,
}

impl View for ConstructorInfo {
    type V = Seq<Ty>;

    open spec fn view(&self) -> Seq<Ty> {
        tys(self.params@)
    }
}

/// Type arguments.
#[derive(Debug)]
pub struct TypeArgs {
    /// The arguments in order.
    pub types: Vec<Type>,
}

impl View for TypeArgs {
    type V = Seq<Ty>;

    open spec fn view(&self) -> Seq<Ty> {
        tys(self.types@)
    }
}

/// Class metadata populated by the type checker.
#[derive(Debug)]
pub struct ClassInfo {
    /// Class name.
    pub name: String,
    /// Source module (file) the class was declared in; scopes `internal`.
    pub module: String,
    /// Whether this is a static class (no instances, all members static).
    pub is_static: bool,
    /// Generic parameters for this class.
    pub generic_params: Vec<GenericParam>,
    /// Whether this is an interface declaration.
    pub is_interface: bool,
    /// Whether this is an abstract class (cannot be instantiated).
    pub is_abstract: bool,
    /// Whether this is a sealed class (cannot be subclassed).
    pub is_sealed: bool,
    /// Whether this is a record class (value semantics, structural equality).
    pub is_record: bool,
    /// Super class name for single inheritance.
    pub super_class: Option<String>,
    /// Interfaces implemented (classes) or extended (interfaces).
    pub interfaces: Vec<String>,
    /// Declared type arguments for each directly implemented generic
    /// interface (`class CatBox : IProducer<Cat>` records `IProducer ->
    /// [Cat]`). Non-generic interfaces map to an empty list.
    pub interface_args: Vec<(String, TypeArgs)>,
    /// Instance field names and types in declaration order.
    pub instance_fields: Vec<(String, Type)>,
    /// Static field names and types in declaration order.
    pub static_fields: Vec<(String, Type)>,
    /// Names of protected instance fields.
    pub protected_fields: Vec<String>,
    /// Names of protected static fields.
    pub protected_static_fields: Vec<String>,
    /// Names of private instance fields.
    pub private_fields: Vec<String>,
    /// Names of private static fields.
    pub private_static_fields: Vec<String>,
    /// Names of internal (module-scoped) instance fields.
    pub internal_fields: Vec<String>,
    /// Names of internal (module-scoped) static fields.
    pub internal_static_fields: Vec<String>,
    /// Instance methods keyed by name.
    pub methods: Vec<(String, MethodInfo)>,
    /// Static methods keyed by name.
    pub static_methods: Vec<(String, MethodInfo)>,
    /// Constructors in declaration order (used when type-checking `new`).
    pub constructors: Vec<ConstructorInfo>,
    /// Instance properties keyed by name.
    pub properties: Vec<(String, PropertyInfo)>,
    /// Static properties keyed by name.
    pub static_properties: Vec<(String, PropertyInfo)>,
}

/// Class metadata by value.
#[verifier::ext_equal]
pub ghost struct ClassModel {
    /// Class name.
    pub name: Seq<char>,
    /// Source module.
    pub module: Seq<char>,
    /// Static class.
    pub is_static: bool,
    /// Generic parameters.
    pub generics: Seq<ParamModel>,
    /// Interface.
    pub is_interface: bool,
    /// Abstract class.
    pub is_abstract: bool,
    /// Sealed class.
    pub is_sealed: bool,
    /// Record.
    pub is_record: bool,
    /// Super class.
    pub super_class: Option<Seq<char>>,
    /// Interfaces.
    pub interfaces: Seq<Seq<char>>,
    /// Type arguments of the interfaces.
    pub interface_args: Seq<(Seq<char>, Seq<Ty>)>,
    /// Instance fields.
    pub instance_fields: Seq<(Seq<char>, Ty)>,
    /// Static fields.
    pub static_fields: Seq<(Seq<char>, Ty)>,
    /// Protected instance fields.
    pub protected_fields: Seq<Seq<char>>,
    /// Protected static fields.
    pub protected_static_fields: Seq<Seq<char>>,
    /// Private instance fields.
    pub private_fields: Seq<Seq<char>>,
    /// Private static fields.
    pub private_static_fields: Seq<Seq<char>>,
    /// Internal instance fields.
    pub internal_fields: Seq<Seq<char>>,
    /// Internal static fields.
    pub internal_static_fields: Seq<Seq<char>>,
    /// Instance methods.
    pub methods: Seq<(Seq<char>, MethodModel)>,
    /// Static methods.
    pub static_methods: Seq<(Seq<char>, MethodModel)>,
    /// Constructors.
    pub constructors: Seq<Seq<Ty>>,
    /// Instance properties.
    pub properties: Seq<(Seq<char>, PropertyModel)>,
    /// Static properties.
    pub static_properties: Seq<(Seq<char>, PropertyModel)>,
}

/// An optional text by value.
pub open spec fn opt_text(s: Option<String>) -> Option<Seq<char>> {
    match s {
        Some(x) => Some(x@),
        None => None,
    }
}

impl View for ClassInfo {
    type V = ClassModel;

    open spec fn view(&self) -> ClassModel {
        ClassModel {
            name: self.name@,
            module: self.module@,
            is_static: self.is_static,
            generics: views(self.generic_params@),
            is_interface: self.is_interface,
            is_abstract: self.is_abstract,
            is_sealed: self.is_sealed,
            is_record: self.is_record,
            super_class: opt_text(self.super_class),
            interfaces: texts(self.interfaces@),
            interface_args: entries(self.interface_args@),
            instance_fields: entries(self.instance_fields@),
            static_fields: entries(self.static_fields@),
            protected_fields: texts(self.protected_fields@),
            protected_static_fields: texts(self.protected_static_fields@),
            private_fields: texts(self.private_fields@),
            private_static_fields: texts(self.private_static_fields@),
            internal_fields: texts(self.internal_fields@),
            internal_static_fields: texts(self.internal_static_fields@),
            methods: entries(self.methods@),
            static_methods: entries(self.static_methods@),
            constructors: views(self.constructors@),
            properties: entries(self.properties@),
            static_properties: entries(self.static_properties@),
        }
    }
}

/// Variant metadata.
#[derive(Debug)]
pub struct VariantInfo {
    /// Variant name.
    pub name: String,
    /// Field names and types.
    pub fields: Vec<(String, Type)>,
}

/// Variant metadata by value.
#[verifier::ext_equal]
pub ghost struct VariantModel {
    /// Variant name.
    pub name: Seq<char>,
    /// Fields.
    pub fields: Seq<(Seq<char>, Ty)>,
}

impl View for VariantInfo {
    type V = VariantModel;

    open spec fn view(&self) -> VariantModel {
        VariantModel { name: self.name@, fields: entries(self.fields@) }
    }
}

/// Enum metadata.
#[derive(Debug)]
pub struct EnumInfo {
    /// Enum name.
    pub name: String,
    /// Generic parameters (empty for plain enums).
    pub generic_params: Vec<GenericParam>,
    /// Variants in declaration order.
    pub variants: Vec<VariantInfo>,
}

/// Enum metadata by value.
#[verifier::ext_equal]
pub ghost struct EnumModel {
    /// Enum name.
    pub name: Seq<char>,
    /// Generic parameters.
    pub generics: Seq<ParamModel>,
    /// Variants.
    pub variants: Seq<VariantModel>,
}

impl View for EnumInfo {
    type V = EnumModel;

    open spec fn view(&self) -> EnumModel {
        EnumModel {
            name: self.name@,
            generics: views(self.generic_params@),
            variants: views(self.variants@),
        }
    }
}

/// A method of a built-in class.
#[derive(Debug)]
pub struct IntrinsicMethod {
    /// Name.
    pub name: String,
    /// Names of its type parameters.
    pub generic_params: Vec<String>,
    /// Parameter types.
    pub params: Vec<Type>,
    /// Return type.
    pub return_ty: Type,
}

/// A built-in method by value.
pub ghost struct BuiltinMethod {
    /// Name.
    pub name: Seq<char>,
    /// Type parameters.
    pub generics: Seq<Seq<char>>,
    /// Parameter types.
    pub params: Seq<Ty>,
    /// Return type.
    pub return_ty: Ty,
}

impl View for IntrinsicMethod {
    type V = BuiltinMethod;

    open spec fn view(&self) -> BuiltinMethod {
        BuiltinMethod {
            name: self.name@,
            generics: texts(self.generic_params@),
            params: tys(self.params@),
            return_ty: self.return_ty@,
        }
    }
}

/// A property of a built-in class.
#[derive(Debug)]
pub struct IntrinsicProperty {
    /// Name.
    pub name: String,
    /// Type.
    pub ty: Type,
}

impl View for IntrinsicProperty {
    type V = (Seq<char>, Ty);

    open spec fn view(&self) -> (Seq<char>, Ty) {
        (self.name@, self.ty@)
    }
}

/// A built-in class.
#[derive(Debug)]
pub struct IntrinsicClass {
    /// Name.
    pub name: String,
    /// Names of its type parameters.
    pub generic_params: Vec<String>,
    /// Whether it can be constructed.
    pub has_constructor: bool,
    /// Parameter types of its constructor.
    pub constructor_params: Vec<Type>,
    /// Instance methods.
    pub methods: Vec<IntrinsicMethod>,
    /// Static methods.
    pub static_methods: Vec<IntrinsicMethod>,
    /// Properties.
    pub properties: Vec<IntrinsicProperty>,
}

/// A built-in class by value.
pub ghost struct BuiltinClass {
    /// Name.
    pub name: Seq<char>,
    /// Type parameters.
    pub generics: Seq<Seq<char>>,
    /// Can be constructed.
    pub has_constructor: bool,
    /// Constructor parameters.
    pub constructor_params: Seq<Ty>,
    /// Instance methods.
    pub methods: Seq<BuiltinMethod>,
    /// Static methods.
    pub static_methods: Seq<BuiltinMethod>,
    /// Properties.
    pub properties: Seq<(Seq<char>, Ty)>,
}

impl View for IntrinsicClass {
    type V = BuiltinClass;

    open spec fn view(&self) -> BuiltinClass {
        BuiltinClass {
            name: self.name@,
            generics: texts(self.generic_params@),
            has_constructor: self.has_constructor,
            constructor_params: tys(self.constructor_params@),
            methods: views(self.methods@),
            static_methods: views(self.static_methods@),
            properties: views(self.properties@),
        }
    }
}

/// The built-in classes, and the members of `string`.
#[derive(Debug)]
pub struct Intrinsics {
    /// Built-in classes.
    pub classes: Vec<IntrinsicClass>,
    /// Methods of `string`.
    pub string_methods: Vec<(String, IntrinsicMethod)>,
    /// Properties of `string`.
    pub string_properties: Vec<(String, Type)>,
}

/// Extension methods of one target: method name to extension class.
#[derive(Debug)]
pub struct ExtensionSet {
    /// Methods.
    pub methods: Vec<(String, String)>,
}

impl View for ExtensionSet {
    type V = Seq<(Seq<char>, Seq<char>)>;

    open spec fn view(&self) -> Seq<(Seq<char>, Seq<char>)> {
        entries(self.methods@)
    }
}

/// The declarations that the checker works with.
#[derive(Debug)]
pub struct Tables {
    /// Class descriptors keyed by name.
    pub classes: Vec<(String, ClassInfo)>,
    /// Enum descriptors keyed by name.
    pub enums: Vec<(String, EnumInfo)>,
    /// Newtype registry: name to underlying primitive type.
    pub newtypes: Vec<(String, Type)>,
    /// Extension methods: target key (`string` or a class name) to extensions.
    pub extensions: Vec<(String, ExtensionSet)>,
    /// What is built in.
    pub intrinsics: Intrinsics,
}

/// Class descriptors by value.
pub type Classes = Seq<(Seq<char>, ClassModel)>;

/// The declarations by value.
#[verifier::ext_equal]
pub ghost struct TableModel {
    /// Classes.
    pub classes: Seq<(Seq<char>, ClassModel)>,
    /// Enums.
    pub enums: Seq<(Seq<char>, EnumModel)>,
    /// Newtypes.
    pub newtypes: Seq<(Seq<char>, Ty)>,
    /// Extensions.
    pub extensions: Seq<(Seq<char>, Seq<(Seq<char>, Seq<char>)>)>,
    /// Built-in classes.
    pub builtins: Seq<BuiltinClass>,
    /// Methods of `string`.
    pub string_methods: Seq<(Seq<char>, BuiltinMethod)>,
    /// Properties of `string`.
    pub string_properties: Seq<(Seq<char>, Ty)>,
}

impl View for Tables {
    type V = TableModel;

    open spec fn view(&self) -> TableModel {
        TableModel {
            classes: entries(self.classes@),
            enums: entries(self.enums@),
            newtypes: entries(self.newtypes@),
            extensions: entries(self.extensions@),
            builtins: views(self.intrinsics.classes@),
            string_methods: entries(self.intrinsics.string_methods@),
            string_properties: entries(self.intrinsics.string_properties@),
        }
    }
}

/// A typed view of the program produced by the type checker.
/// The program is unchanged, but the checker validates it and enriches the
/// compiler's symbol tables.
#[derive(Debug)]
pub struct TypedProgram {
    /// Original program.
    pub program: Program,
    /// Class descriptors keyed by name.
    pub classes: Vec<(String, ClassInfo)>,
    /// Enum descriptors keyed by name.
    pub enums: Vec<(String, EnumInfo)>,
    /// Newtype registry: name to underlying primitive type. Used by the
    /// emitter to recognize `Name(expr)` constructors, which erase to the
    /// wrapped expression.
    pub newtypes: Vec<(String, Type)>,
    /// Extension methods: target key (`string` or a class name) to method
    /// name to extension class. Call sites resolve `x.Foo()` to a static
    /// call on the extension class when `x`'s type has no real `Foo`.
    pub extensions: Vec<(String, ExtensionSet)>,
}

/// Type checking error.
#[derive(Debug)]
pub struct TypeError(pub String);

} // verus!
