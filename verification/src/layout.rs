//! What the printer writes: the text of each part of a node, as a function of the node.
//!
//! All text is plain: no terminal colours are used.
use vstd::prelude::*;
use crate::node::{
    Accessibility, ClassConstructorDef, ClassDef, ClassMethodDef, ClassPropertyDef, DocNode, DocNodeKind,
    EnumMemberDef, InterfaceMemberDef, JsDoc, JsDocTag, VarDeclKind,
};
use crate::text::{
    indent_text, join, lemma_name_before_irreflexive, lemma_name_before_transitive, lines_text,
    name_before, text_lines, views,
};

verus! {

// ---------------------------------------------------------------- small pieces

/// `abstract ` for an abstract class.
pub open spec fn abstract_text(is_abstract: bool) -> Seq<char> {
    if is_abstract { "abstract "@ } else { Seq::empty() }
}

/// `async ` for an async function.
pub open spec fn async_text(is_async: bool) -> Seq<char> {
    if is_async { "async "@ } else { Seq::empty() }
}

/// `*` for a generator function.
pub open spec fn generator_text(is_generator: bool) -> Seq<char> {
    if is_generator { "*"@ } else { Seq::empty() }
}

/// Type parameters in angle brackets, or nothing when there are none.
pub open spec fn angle_list_text(items: Seq<String>) -> Seq<char> {
    if items.len() > 0 {
        "<"@ + join(views(items), ", "@) + ">"@
    } else {
        Seq::empty()
    }
}

/// Each string on a line of its own, indented by `n` levels.
pub open spec fn each_line_text(items: Seq<String>, n: nat) -> Seq<char> {
    lines_text(views(items), n)
}

/// `prefix` and the text, when there is one; nothing otherwise.
pub open spec fn opt_text(prefix: Seq<char>, o: Option<String>) -> Seq<char> {
    match o {
        Some(v) => prefix + v@,
        None => Seq::empty(),
    }
}

/// `prefix` and the items separated by `, `, when there are any; nothing otherwise.
pub open spec fn list_clause_text(prefix: Seq<char>, items: Seq<String>) -> Seq<char> {
    if items.len() > 0 {
        prefix + join(views(items), ", "@)
    } else {
        Seq::empty()
    }
}

/// ` {text}`
pub open spec fn braced_text(t: Seq<char>) -> Seq<char> {
    " {"@ + t + "}"@
}

// ---------------------------------------------------------------- JSDoc

/// The start of a tag's line: the indentation, `@` and the tag's name.
pub open spec fn tag_head_text(indent: nat, label: Seq<char>) -> Seq<char> {
    indent_text(indent) + "@"@ + label
}

/// The free text of a tag, two levels deeper than the tag, followed by an empty line;
/// nothing when the tag has none.
pub open spec fn tag_doc_text(doc: Option<String>, indent: nat) -> Seq<char> {
    match doc {
        Some(d) => lines_text(text_lines(d@), indent + 2) + "\n"@,
        None => Seq::empty(),
    }
}

/// A tag with a name after it: `@callback name`, `@template name`.
pub open spec fn named_tag_text(indent: nat, label: Seq<char>, name: String, doc: Option<String>) -> Seq<char> {
    tag_head_text(indent, label) + " "@ + name@ + "\n"@ + tag_doc_text(doc, indent)
}

/// A tag with only its free text: `@category`, `@deprecated`, `@example`.
pub open spec fn doc_tag_text(indent: nat, label: Seq<char>, doc: Option<String>) -> Seq<char> {
    tag_head_text(indent, label) + "\n"@ + tag_doc_text(doc, indent)
}

/// A tag with a braced type or value: `@enum {type}`, `@default {value}`.
pub open spec fn typed_tag_text(indent: nat, label: Seq<char>, type_ref: String, doc: Option<String>) -> Seq<char> {
    tag_head_text(indent, label) + braced_text(type_ref@) + "\n"@ + tag_doc_text(doc, indent)
}

/// A tag with a braced type and a name: `@property {type} name`.
pub open spec fn typed_named_tag_text(
    indent: nat,
    label: Seq<char>,
    type_ref: String,
    name: String,
    doc: Option<String>,
) -> Seq<char> {
    tag_head_text(indent, label) + braced_text(type_ref@) + " "@ + name@ + "\n"@ + tag_doc_text(doc, indent)
}

/// A tag that is only its name: `@constructor`, `@private`.
pub open spec fn bare_tag_text(indent: nat, label: Seq<char>) -> Seq<char> {
    tag_head_text(indent, label) + "\n"@
}

/// The part of `@param` between its name and the parameter's name.
pub open spec fn param_tag_middle(type_ref: Option<String>, optional: bool, default: Option<String>) -> Seq<char> {
    (match type_ref {
        Some(t) => braced_text(t@),
        None => Seq::empty(),
    }) + (if optional {
        " [?]"@
    } else {
        match default {
            Some(d) => " ["@ + d@ + "]"@,
            None => Seq::empty(),
        }
    })
}

/// The text of one JSDoc tag at the given indentation.
#[verifier::opaque]
pub open spec fn tag_text(tag: JsDocTag, indent: nat) -> Seq<char> {
    match tag {
        JsDocTag::Callback { name, doc } => named_tag_text(indent, "callback"@, name, doc),
        JsDocTag::Category { doc } => doc_tag_text(indent, "category"@, doc),
        JsDocTag::Constructor => bare_tag_text(indent, "constructor"@),
        JsDocTag::Default { value, doc } => typed_tag_text(indent, "default"@, value, doc),
        JsDocTag::Deprecated { doc } => doc_tag_text(indent, "deprecated"@, doc),
        JsDocTag::Enum { type_ref, doc } => typed_tag_text(indent, "enum"@, type_ref, doc),
        JsDocTag::Example { doc } => doc_tag_text(indent, "example"@, doc),
        JsDocTag::Extends { type_ref, doc } => typed_tag_text(indent, "extends"@, type_ref, doc),
        JsDocTag::Ignore => bare_tag_text(indent, "ignore"@),
        JsDocTag::Module => bare_tag_text(indent, "module"@),
        JsDocTag::Param { name, type_ref, optional, default, doc } => tag_head_text(
            indent,
            "param"@,
        ) + param_tag_middle(type_ref, optional, default) + " "@ + name@ + "\n"@ + tag_doc_text(
            doc,
            indent,
        ),
        JsDocTag::Public => bare_tag_text(indent, "public"@),
        JsDocTag::Private => bare_tag_text(indent, "private"@),
        JsDocTag::Property { name, type_ref, doc } => typed_named_tag_text(
            indent,
            "property"@,
            type_ref,
            name,
            doc,
        ),
        JsDocTag::Protected => bare_tag_text(indent, "protected"@),
        JsDocTag::ReadOnly => bare_tag_text(indent, "readonly"@),
        JsDocTag::Return { type_ref, doc } => tag_head_text(indent, "return"@) + (match type_ref {
            Some(t) => braced_text(t@),
            None => Seq::empty(),
        }) + "\n"@ + tag_doc_text(doc, indent),
        JsDocTag::Tags { tags } => tag_head_text(indent, "tags"@) + " "@ + join(views(tags@), ", "@)
            + "\n"@,
        JsDocTag::Template { name, doc } => named_tag_text(indent, "template"@, name, doc),
        JsDocTag::This { type_ref, doc } => typed_tag_text(indent, "this"@, type_ref, doc),
        JsDocTag::TypeDef { name, type_ref, doc } => typed_named_tag_text(
            indent,
            "typedef"@,
            type_ref,
            name,
            doc,
        ),
        JsDocTag::TypeRef { type_ref, doc } => typed_tag_text(indent, "typeref"@, type_ref, doc),
        JsDocTag::Unsupported { value } => bare_tag_text(indent, value@),
    }
}

/// The tags one after the other.
pub open spec fn tags_text(tags: Seq<JsDocTag>, indent: nat) -> Seq<char>
    decreases tags.len(),
{
    if tags.len() == 0 {
        Seq::empty()
    } else {
        tags_text(tags.drop_last(), indent) + tag_text(tags.last(), indent)
    }
}

/// A JSDoc comment: the lines of its free text, an empty line if it has tags, then
/// its tags.
#[verifier::opaque]
pub open spec fn jsdoc_text(js_doc: JsDoc, indent: nat) -> Seq<char> {
    (match js_doc.doc {
        Some(d) => lines_text(text_lines(d@), indent),
        None => Seq::empty(),
    }) + (if js_doc.tags@.len() > 0 {
        "\n"@
    } else {
        Seq::empty()
    }) + tags_text(js_doc.tags@, indent)
}

// ---------------------------------------------------------------- signatures

/// The number of function nodes named `name`.
pub open spec fn function_count(nodes: Seq<DocNode>, name: Seq<char>) -> nat
    decreases nodes.len(),
{
    if nodes.len() == 0 {
        0
    } else {
        function_count(nodes.drop_last(), name) + if nodes.last().kind == DocNodeKind::Function
            && nodes.last().name@ == name {
            1nat
        } else {
            0nat
        }
    }
}

/// A function node is overloaded among `nodes` when more than one function node
/// there has its name.
pub open spec fn overloaded(nodes: Seq<DocNode>, node: DocNode) -> bool {
    node.kind == DocNodeKind::Function && function_count(nodes, node.name@) > 1
}

/// The decorators of a class, then `abstract class Name<T>`.
#[verifier::opaque]
pub open spec fn class_head_text(node: DocNode, indent: nat) -> Seq<char> {
    let class_def = node.class_def.unwrap();
    each_line_text(class_def.decorators@, indent) + indent_text(indent) + abstract_text(
        class_def.is_abstract,
    ) + "class "@ + node.name@ + angle_list_text(class_def.type_params@)
}

/// ` extends Base<U> implements I, J` and the end of the line.
#[verifier::opaque]
pub open spec fn class_heritage_text(class_def: ClassDef) -> Seq<char> {
    opt_text(" extends "@, class_def.extends) + angle_list_text(class_def.super_type_params@)
        + list_clause_text(" implements "@, class_def.implements@) + "\n"@
}

/// `class Name<T> extends Base<U> implements I, J`, after the decorators.
#[verifier::opaque]
pub open spec fn class_signature_text(node: DocNode, indent: nat) -> Seq<char> {
    class_head_text(node, indent) + class_heritage_text(node.class_def.unwrap())
}

/// `enum Name`
#[verifier::opaque]
pub open spec fn enum_signature_text(node: DocNode, indent: nat) -> Seq<char> {
    indent_text(indent) + "enum "@ + node.name@ + "\n"@
}

/// `async function* name<T>(params): ret`; nothing for the implementation of an
/// overloaded function.
#[verifier::opaque]
pub open spec fn function_signature_text(node: DocNode, indent: nat, has_overloads: bool) -> Seq<char> {
    let function_def = node.function_def.unwrap();
    if !has_overloads || !function_def.has_body {
        indent_text(indent) + async_text(function_def.is_async) + "function"@ + generator_text(
            function_def.is_generator,
        ) + " "@ + node.name@ + angle_list_text(function_def.type_params@) + "("@ + join(
            views(function_def.params@),
            ", "@,
        ) + ")"@ + opt_text(": "@, function_def.return_type) + "\n"@
    } else {
        Seq::empty()
    }
}

/// `interface Name<T> extends A, B`
#[verifier::opaque]
pub open spec fn interface_signature_text(node: DocNode, indent: nat) -> Seq<char> {
    let interface_def = node.interface_def.unwrap();
    indent_text(indent) + "interface "@ + node.name@ + angle_list_text(interface_def.type_params@)
        + list_clause_text(" extends "@, interface_def.extends@) + "\n"@
}

/// `type Name<T> = type`
#[verifier::opaque]
pub open spec fn type_alias_signature_text(node: DocNode, indent: nat) -> Seq<char> {
    let type_alias_def = node.type_alias_def.unwrap();
    indent_text(indent) + "type "@ + node.name@ + angle_list_text(type_alias_def.type_params@)
        + " = "@ + type_alias_def.ts_type@ + "\n"@
}

/// `namespace Name`
#[verifier::opaque]
pub open spec fn namespace_signature_text(node: DocNode, indent: nat) -> Seq<char> {
    indent_text(indent) + "namespace "@ + node.name@ + "\n"@
}

/// The keyword of a variable declaration.
pub open spec fn var_keyword(kind: VarDeclKind) -> Seq<char> {
    match kind {
        VarDeclKind::Const => "const"@,
        VarDeclKind::Let => "let"@,
        VarDeclKind::Var => "var"@,
    }
}

/// `const name: type`
#[verifier::opaque]
pub open spec fn variable_signature_text(node: DocNode, indent: nat) -> Seq<char> {
    let variable_def = node.variable_def.unwrap();
    indent_text(indent) + var_keyword(variable_def.kind) + " "@ + node.name@ + opt_text(
        ": "@,
        variable_def.ts_type,
    ) + "\n"@
}

/// The signature of a node by its kind; a module doc and an import have none.
#[verifier::opaque]
pub open spec fn signature_text(node: DocNode, indent: nat, has_overloads: bool) -> Seq<char> {
    match node.kind {
        DocNodeKind::ModuleDoc => Seq::empty(),
        DocNodeKind::Function => function_signature_text(node, indent, has_overloads),
        DocNodeKind::Variable => variable_signature_text(node, indent),
        DocNodeKind::Class => class_signature_text(node, indent),
        DocNodeKind::Enum => enum_signature_text(node, indent),
        DocNodeKind::Interface => interface_signature_text(node, indent),
        DocNodeKind::TypeAlias => type_alias_signature_text(node, indent),
        DocNodeKind::Namespace => namespace_signature_text(node, indent),
        DocNodeKind::Import => Seq::empty(),
    }
}

// ---------------------------------------------------------------- bodies

/// A member is shown when private members are asked for, or when it is not private.
pub open spec fn member_visible(private: bool, accessibility: Option<Accessibility>) -> bool {
    private || accessibility != Some(Accessibility::Private)
}

/// A constructor, unless it is the implementation of an overloaded constructor.
#[verifier::opaque]
pub open spec fn constructor_text(c: ClassConstructorDef, has_overloads: bool) -> Seq<char> {
    if !has_overloads || !c.has_body {
        indent_text(1) + c.signature@ + "\n"@ + jsdoc_text(c.js_doc, 2)
    } else {
        Seq::empty()
    }
}

pub open spec fn constructors_text(cs: Seq<ClassConstructorDef>, has_overloads: bool) -> Seq<char>
    decreases cs.len(),
{
    if cs.len() == 0 {
        Seq::empty()
    } else {
        constructors_text(cs.drop_last(), has_overloads) + constructor_text(cs.last(), has_overloads)
    }
}

/// A property with its decorators, if it is shown.
#[verifier::opaque]
pub open spec fn property_text(p: ClassPropertyDef, private: bool) -> Seq<char> {
    if member_visible(private, p.accessibility) {
        each_line_text(p.decorators@, 1) + indent_text(1) + p.signature@ + "\n"@ + jsdoc_text(
            p.js_doc,
            2,
        )
    } else {
        Seq::empty()
    }
}

pub open spec fn properties_text(ps: Seq<ClassPropertyDef>, private: bool) -> Seq<char>
    decreases ps.len(),
{
    if ps.len() == 0 {
        Seq::empty()
    } else {
        properties_text(ps.drop_last(), private) + property_text(ps.last(), private)
    }
}

/// The number of methods named `name`.
pub open spec fn method_count(methods: Seq<ClassMethodDef>, name: Seq<char>) -> nat
    decreases methods.len(),
{
    if methods.len() == 0 {
        0
    } else {
        method_count(methods.drop_last(), name) + if methods.last().name@ == name {
            1nat
        } else {
            0nat
        }
    }
}

/// A method with its decorators, if it is shown and is not the implementation of an
/// overloaded method; `all` are all the methods of the class.
#[verifier::opaque]
pub open spec fn method_text(m: ClassMethodDef, all: Seq<ClassMethodDef>, private: bool) -> Seq<char> {
    if member_visible(private, m.accessibility) && (method_count(all, m.name@) <= 1
        || !m.function_def.has_body) {
        each_line_text(m.function_def.decorators@, 1) + indent_text(1) + m.signature@ + "\n"@
            + jsdoc_text(m.js_doc, 2)
    } else {
        Seq::empty()
    }
}

pub open spec fn methods_text(ms: Seq<ClassMethodDef>, all: Seq<ClassMethodDef>, private: bool) -> Seq<
    char,
>
    decreases ms.len(),
{
    if ms.len() == 0 {
        Seq::empty()
    } else {
        methods_text(ms.drop_last(), all, private) + method_text(ms.last(), all, private)
    }
}

/// The members of a class, then an empty line.
#[verifier::opaque]
pub open spec fn class_body_text(node: DocNode, private: bool) -> Seq<char> {
    let class_def = node.class_def.unwrap();
    constructors_text(class_def.constructors@, class_def.constructors@.len() > 1) + properties_text(
        class_def.properties@,
        private,
    ) + each_line_text(class_def.index_signatures@, 1) + methods_text(
        class_def.methods@,
        class_def.methods@,
        private,
    ) + "\n"@
}

#[verifier::opaque]
pub open spec fn enum_member_text(m: EnumMemberDef) -> Seq<char> {
    indent_text(1) + m.name@ + "\n"@ + jsdoc_text(m.js_doc, 2)
}

pub open spec fn enum_members_text(ms: Seq<EnumMemberDef>) -> Seq<char>
    decreases ms.len(),
{
    if ms.len() == 0 {
        Seq::empty()
    } else {
        enum_members_text(ms.drop_last()) + enum_member_text(ms.last())
    }
}

/// The members of an enum, then an empty line.
#[verifier::opaque]
pub open spec fn enum_body_text(node: DocNode) -> Seq<char> {
    enum_members_text(node.enum_def.unwrap().members@) + "\n"@
}

#[verifier::opaque]
pub open spec fn interface_member_text(m: InterfaceMemberDef) -> Seq<char> {
    indent_text(1) + m.signature@ + "\n"@ + jsdoc_text(m.js_doc, 2)
}

pub open spec fn interface_members_text(ms: Seq<InterfaceMemberDef>) -> Seq<char>
    decreases ms.len(),
{
    if ms.len() == 0 {
        Seq::empty()
    } else {
        interface_members_text(ms.drop_last()) + interface_member_text(ms.last())
    }
}

/// The members of an interface, then an empty line.
#[verifier::opaque]
pub open spec fn interface_body_text(node: DocNode) -> Seq<char> {
    let interface_def = node.interface_def.unwrap();
    interface_members_text(interface_def.properties@) + interface_members_text(interface_def.methods@)
        + each_line_text(interface_def.index_signatures@, 1) + "\n"@
}

/// An element of a namespace: its signature and its JSDoc; `all` are all the
/// elements of the namespace.
#[verifier::opaque]
pub open spec fn element_text(e: DocNode, all: Seq<DocNode>) -> Seq<char> {
    signature_text(e, 1, overloaded(all, e)) + jsdoc_text(e.js_doc, 2)
}

pub open spec fn elements_text(es: Seq<DocNode>, all: Seq<DocNode>) -> Seq<char>
    decreases es.len(),
{
    if es.len() == 0 {
        Seq::empty()
    } else {
        elements_text(es.drop_last(), all) + element_text(es.last(), all)
    }
}

/// The elements of a namespace, then an empty line.
#[verifier::opaque]
pub open spec fn namespace_body_text(node: DocNode) -> Seq<char> {
    let elements = node.namespace_def.unwrap().elements@;
    elements_text(elements, elements) + "\n"@
}

/// The members of a node after its signature: for classes, enums, interfaces and
/// namespaces; nothing for other kinds.
#[verifier::opaque]
pub open spec fn body_text(node: DocNode, private: bool) -> Seq<char> {
    match node.kind {
        DocNodeKind::Class => class_body_text(node, private),
        DocNodeKind::Enum => enum_body_text(node),
        DocNodeKind::Interface => interface_body_text(node),
        DocNodeKind::Namespace => namespace_body_text(node),
        _ => Seq::empty(),
    }
}

/// A whole node: its signature, its JSDoc one level deeper, an empty line, its members.
#[verifier::opaque]
pub open spec fn node_text(node: DocNode, private: bool, indent: nat, has_overloads: bool) -> Seq<char> {
    signature_text(node, indent, has_overloads) + jsdoc_text(node.js_doc, indent + 1) + "\n"@
        + body_text(node, private)
}

/// What `print_doc_node` gives for a node.
pub open spec fn doc_node_text(node: DocNode, private: bool, has_overloads: bool) -> Seq<char> {
    node_text(node, private, 0, has_overloads)
}

// ---------------------------------------------------------------- order of a list

/// The rank of a kind in a listing: module doc, functions, variables, classes,
/// enums, interfaces, type aliases, namespaces, imports.
pub open spec fn kind_rank(kind: DocNodeKind) -> int {
    match kind {
        DocNodeKind::ModuleDoc => 0,
        DocNodeKind::Function => 1,
        DocNodeKind::Variable => 2,
        DocNodeKind::Class => 3,
        DocNodeKind::Enum => 4,
        DocNodeKind::Interface => 5,
        DocNodeKind::TypeAlias => 6,
        DocNodeKind::Namespace => 7,
        DocNodeKind::Import => 8,
    }
}

/// `a` is listed before `b`: its kind ranks lower, or it is of the same rank and
/// its name comes first.
pub open spec fn node_before(a: DocNode, b: DocNode) -> bool {
    kind_rank(a.kind) < kind_rank(b.kind) || (kind_rank(a.kind) == kind_rank(b.kind)
        && name_before(a.name@, b.name@))
}

/// No node of the list is to be listed before one that precedes it.
pub open spec fn in_listing_order(nodes: Seq<DocNode>) -> bool {
    forall|i: int, j: int| 0 <= i < j < nodes.len() ==> !node_before(#[trigger] nodes[j], #[trigger] nodes[i])
}

/// The nodes of a list of pairs.
pub open spec fn first_of_pairs(pairs: Seq<(DocNode, String)>) -> Seq<DocNode> {
    pairs.map_values(|p: (DocNode, String)| p.0)
}

/// The order of listing is transitive.
pub proof fn lemma_node_before_transitive(a: DocNode, b: DocNode, c: DocNode)
    requires
        node_before(a, b),
        node_before(b, c),
    ensures
        node_before(a, c),
{
    if kind_rank(a.kind) == kind_rank(b.kind) && kind_rank(b.kind) == kind_rank(c.kind) {
        lemma_name_before_transitive(a.name@, b.name@, c.name@);
    }
}

/// No node is listed before itself.
pub proof fn lemma_node_before_irreflexive(a: DocNode)
    ensures
        !node_before(a, a),
{
    lemma_name_before_irreflexive(a.name@);
}

} // verus!
