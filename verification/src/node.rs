//! The documentation model that the printer reads.
//!
//! A documented item is a [`DocNode`]: its kind, its name, its JSDoc comment and the
//! definition that belongs to its kind. Parts that are shown as one piece of text (a
//! parameter, a type, a decorator, a class member's one-line signature) are held as
//! the text that stands for them.
use vstd::prelude::*;

verus! {

/// The kind of a documented item.
#[derive(Clone, Copy, Debug, PartialEq, Eq, Structural)]
pub enum DocNodeKind {
    ModuleDoc,
    Function,
    Variable,
    Class,
    Enum,
    Interface,
    TypeAlias,
    Namespace,
    Import,
}

/// The accessibility modifier of a class member (`public`, `protected`, `private`).
#[derive(Clone, Copy, Debug, PartialEq, Eq, Structural)]
pub enum Accessibility {
    Public,
    Protected,
    Private,
}

/// The keyword a variable is declared with.
#[derive(Clone, Copy, Debug, PartialEq, Eq, Structural)]
pub enum VarDeclKind {
    Var,
    Let,
    Const,
}

/// One tag of a JSDoc comment.
#[derive(Clone, Debug, PartialEq, Eq)]
pub enum JsDocTag {
    /// `@callback name`
    Callback { name: String, doc: Option<String> },
    /// `@category`
    Category { doc: Option<String> },
    /// `@constructor` or `@class`
    Constructor,
    /// `@default {value}`
    Default { value: String, doc: Option<String> },
    /// `@deprecated`
    Deprecated { doc: Option<String> },
    /// `@enum {type}`
    Enum { type_ref: String, doc: Option<String> },
    /// `@example`
    Example { doc: Option<String> },
    /// `@extends {type}`
    Extends { type_ref: String, doc: Option<String> },
    /// `@ignore`
    Ignore,
    /// `@module`
    Module,
    /// `@param {type} [default] name`
    Param {
        name: String,
        type_ref: Option<String>,
        optional: bool,
        default: Option<String>,
        doc: Option<String>,
    },
    /// `@public`
    Public,
    /// `@private`
    Private,
    /// `@property {type} name`
    Property { name: String, type_ref: String, doc: Option<String> },
    /// `@protected`
    Protected,
    /// `@readonly`
    ReadOnly,
    /// `@return {type}`
    Return { type_ref: Option<String>, doc: Option<String> },
    /// `@tags a, b`
    Tags { tags: Vec<String> },
    /// `@template name`
    Template { name: String, doc: Option<String> },
    /// `@this {type}`
    This { type_ref: String, doc: Option<String> },
    /// `@typedef {type} name`
    TypeDef { name: String, type_ref: String, doc: Option<String> },
    /// `@typeref {type}`
    TypeRef { type_ref: String, doc: Option<String> },
    /// Any other tag, by its name.
    Unsupported { value: String },
}

/// A JSDoc comment: its free text and its tags.
#[derive(Clone, Debug, PartialEq, Eq)]
pub struct JsDoc {
    pub doc: Option<String>,
    pub tags: Vec<JsDocTag>,
}

/// A function or method definition.
#[derive(Clone, Debug, PartialEq, Eq)]
pub struct FunctionDef {
    /// The parameters, each as shown in a signature.
    pub params: Vec<String>,
    /// The return type as shown, if one is declared.
    pub return_type: Option<String>,
    pub has_body: bool,
    pub is_async: bool,
    pub is_generator: bool,
    /// The type parameters, each as shown.
    pub type_params: Vec<String>,
    /// The decorators, each as shown.
    pub decorators: Vec<String>,
}

/// A variable declaration.
#[derive(Clone, Debug, PartialEq, Eq)]
pub struct VariableDef {
    /// The declared type as shown, if one is known.
    pub ts_type: Option<String>,
    pub kind: VarDeclKind,
}

/// One member of an enum.
#[derive(Clone, Debug, PartialEq, Eq)]
pub struct EnumMemberDef {
    pub name: String,
    pub js_doc: JsDoc,
}

/// An enum declaration.
#[derive(Clone, Debug, PartialEq, Eq)]
pub struct EnumDef {
    pub members: Vec<EnumMemberDef>,
}

/// A constructor of a class.
#[derive(Clone, Debug, PartialEq, Eq)]
pub struct ClassConstructorDef {
    /// The constructor's one-line signature.
    pub signature: String,
    pub has_body: bool,
    pub js_doc: JsDoc,
}

/// A property of a class.
#[derive(Clone, Debug, PartialEq, Eq)]
pub struct ClassPropertyDef {
    /// The property's one-line signature.
    pub signature: String,
    pub accessibility: Option<Accessibility>,
    /// The decorators, each as shown.
    pub decorators: Vec<String>,
    pub js_doc: JsDoc,
}

/// A method of a class.
#[derive(Clone, Debug, PartialEq, Eq)]
pub struct ClassMethodDef {
    /// The method's one-line signature.
    pub signature: String,
    pub name: String,
    pub accessibility: Option<Accessibility>,
    pub function_def: FunctionDef,
    pub js_doc: JsDoc,
}

/// A class declaration.
#[derive(Clone, Debug, PartialEq, Eq)]
pub struct ClassDef {
    pub is_abstract: bool,
    pub constructors: Vec<ClassConstructorDef>,
    pub properties: Vec<ClassPropertyDef>,
    /// The index signatures, each as shown.
    pub index_signatures: Vec<String>,
    pub methods: Vec<ClassMethodDef>,
    /// The extended class as shown, if there is one.
    pub extends: Option<String>,
    /// The implemented interfaces, each as shown.
    pub implements: Vec<String>,
    /// The type parameters, each as shown.
    pub type_params: Vec<String>,
    /// The type arguments of the extended class, each as shown.
    pub super_type_params: Vec<String>,
    /// The decorators, each as shown.
    pub decorators: Vec<String>,
}

/// A member of an interface (property or method) with its one-line signature.
#[derive(Clone, Debug, PartialEq, Eq)]
pub struct InterfaceMemberDef {
    pub signature: String,
    pub js_doc: JsDoc,
}

/// An interface declaration.
#[derive(Clone, Debug, PartialEq, Eq)]
pub struct InterfaceDef {
    /// The extended interfaces, each as shown.
    pub extends: Vec<String>,
    pub properties: Vec<InterfaceMemberDef>,
    pub methods: Vec<InterfaceMemberDef>,
    /// The index signatures, each as shown.
    pub index_signatures: Vec<String>,
    /// The type parameters, each as shown.
    pub type_params: Vec<String>,
}

/// A type alias declaration.
#[derive(Clone, Debug, PartialEq, Eq)]
pub struct TypeAliasDef {
    /// The aliased type as shown.
    pub ts_type: String,
    /// The type parameters, each as shown.
    pub type_params: Vec<String>,
}

/// A namespace declaration and the items declared in it.
#[derive(Debug, PartialEq, Eq)]
pub struct NamespaceDef {
    pub elements: Vec<DocNode>,
}

/// A documented item.
#[derive(Debug, PartialEq, Eq)]
pub struct DocNode {
    pub kind: DocNodeKind,
    pub name: String,
    pub js_doc: JsDoc,
    pub function_def: Option<FunctionDef>,
    pub variable_def: Option<VariableDef>,
    pub enum_def: Option<EnumDef>,
    pub class_def: Option<ClassDef>,
    pub type_alias_def: Option<TypeAliasDef>,
    pub namespace_def: Option<NamespaceDef>,
    pub interface_def: Option<InterfaceDef>,
}

impl DocNode {
    /// The definition that the node's one-line signature is made from is present.
    pub open spec fn has_signature_def(self) -> bool {
        match self.kind {
            DocNodeKind::Function => self.function_def is Some,
            DocNodeKind::Variable => self.variable_def is Some,
            DocNodeKind::Class => self.class_def is Some,
            DocNodeKind::Interface => self.interface_def is Some,
            DocNodeKind::TypeAlias => self.type_alias_def is Some,
            _ => true,
        }
    }

    /// Every definition that printing the node reads is present: the one of its
    /// signature, the one of its body, and for a namespace, the signature's
    /// definition of each element.
    pub open spec fn is_printable(self) -> bool {
        &&& self.has_signature_def()
        &&& match self.kind {
            DocNodeKind::Enum => self.enum_def is Some,
            DocNodeKind::Namespace => match self.namespace_def {
                Some(ns) => forall|i: int|
                    0 <= i < ns.elements@.len() ==> (#[trigger] ns.elements@[i]).has_signature_def(),
                None => false,
            },
            _ => true,
        }
    }
}

impl DocNode {
    /// Whether the definition that the node's signature is made from is present.
    fn has_signature_definition(&self) -> (r: bool)
        ensures
            r == self.has_signature_def(),
    {
        match self.kind {
            DocNodeKind::Function => self.function_def.is_some(),
            DocNodeKind::Variable => self.variable_def.is_some(),
            DocNodeKind::Class => self.class_def.is_some(),
            DocNodeKind::Interface => self.interface_def.is_some(),
            DocNodeKind::TypeAlias => self.type_alias_def.is_some(),
            _ => true,
        }
    }

    /// Whether every definition that printing the node reads is present, so that
    /// the node can be printed.
    pub fn can_print(&self) -> (r: bool)
        ensures
            r == self.is_printable(),
    {
        if !self.has_signature_definition() {
            return false;
        }
        match self.kind {
            DocNodeKind::Enum => self.enum_def.is_some(),
            DocNodeKind::Namespace => match &self.namespace_def {
                Some(ns) => {
                    let mut i: usize = 0;
                    while i < ns.elements.len()
                        invariant
                            self.kind == DocNodeKind::Namespace,
                            self.has_signature_def(),
                            self.namespace_def == Some(*ns),
                            i <= ns.elements@.len(),
                            forall|k: int| 0 <= k < i ==> (#[trigger] ns.elements@[k]).has_signature_def(),
                        decreases ns.elements@.len() - i,
                    {
                        if !ns.elements[i].has_signature_definition() {
                            assert(!(ns.elements@[i as int]).has_signature_def());
                            assert(self.namespace_def.unwrap().elements@[i as int] == ns.elements@[i as int]);
                            assert(!self.is_printable());
                            return false;
                        }
                        i = i + 1;
                    }
                    true
                },
                None => false,
            },
            _ => true,
        }
    }
}

} // verus!
