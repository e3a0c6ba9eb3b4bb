//! The printer: writes nodes as plain text, and orders a list of nodes for display.
use vstd::prelude::*;
use crate::laws::law_overloaded_independent_of_order;
use crate::layout::{
    abstract_text, angle_list_text, async_text, bare_tag_text, body_text, class_body_text,
    class_head_text, class_heritage_text, class_signature_text, constructor_text,
    constructors_text, doc_node_text, doc_tag_text, each_line_text, element_text, elements_text,
    enum_body_text, enum_member_text, enum_members_text, enum_signature_text, first_of_pairs,
    function_count, function_signature_text, generator_text, in_listing_order,
    interface_body_text, interface_member_text, interface_members_text, interface_signature_text,
    jsdoc_text, kind_rank, lemma_node_before_irreflexive, lemma_node_before_transitive,
    list_clause_text, member_visible, method_count, method_text, methods_text, named_tag_text,
    namespace_body_text, namespace_signature_text, node_before, node_text, opt_text, overloaded,
    param_tag_middle, properties_text, property_text, signature_text, tag_doc_text,
    tag_head_text, tag_text, tags_text, type_alias_signature_text, typed_named_tag_text,
    typed_tag_text, var_keyword, variable_signature_text,
};
use crate::node::{
    Accessibility, ClassConstructorDef, ClassDef, ClassMethodDef, ClassPropertyDef, DocNode,
    DocNodeKind, InterfaceMemberDef, JsDoc, JsDocTag, VarDeclKind,
};
use crate::text::{
    indent_text, join, lines_text, name_lt, views, write_indent, write_joined, write_lines,
};

verus! {

/// Writes one node.
pub struct DocNodePrinter<'a> {
    doc_node: &'a DocNode,
    private: bool,
    has_overloads: bool,
    indent: usize,
}

/// Appends the start of a tag's line.
fn write_tag_head(w: &mut String, indent: usize, label: &str)
    ensures
        final(w)@ == old(w)@ + tag_head_text(indent as nat, label@),
{
    write_indent(w, indent);
    w.append("@");
    w.append(label);
}

/// Appends type parameters in angle brackets, if there are any.
fn write_angle_list(w: &mut String, items: &Vec<String>)
    ensures
        final(w)@ == old(w)@ + angle_list_text(items@),
{
    if items.len() > 0 {
        w.append("<");
        write_joined(w, items, ", ");
        w.append(">");
    }
}

/// Appends each string on a line of its own, indented by `n` levels.
fn write_each_line(w: &mut String, items: &Vec<String>, n: usize)
    ensures
        final(w)@ == old(w)@ + each_line_text(items@, n as nat),
{
    let mut i: usize = 0;
    while i < items.len()
        invariant
            i <= items@.len(),
            w@ == old(w)@ + lines_text(views(items@.take(i as int)), n as nat),
        decreases items@.len() - i,
    {
        write_indent(w, n);
        w.append(items[i].as_str());
        w.append("\n");
        assert(views(items@.take(i + 1)).drop_last() =~= views(items@.take(i as int)));
        i = i + 1;
    }
    assert(items@.take(items@.len() as int) =~= items@);
}

/// Whether a class member is shown.
fn is_member_visible(private: bool, accessibility: Option<Accessibility>) -> (r: bool)
    ensures
        r == member_visible(private, accessibility),
{
    private || match accessibility {
        Some(Accessibility::Private) => false,
        _ => true,
    }
}

/// The number of function nodes named `name`.
fn count_functions_named(nodes: &Vec<DocNode>, name: &String) -> (r: usize)
    ensures
        r == function_count(nodes@, name@),
{
    let mut count: usize = 0;
    let mut i: usize = 0;
    while i < nodes.len()
        invariant
            i <= nodes@.len(),
            count == function_count(nodes@.take(i as int), name@),
            count <= i,
        decreases nodes@.len() - i,
    {
        assert(nodes@.take(i + 1).drop_last() =~= nodes@.take(i as int));
        if nodes[i].kind == DocNodeKind::Function && nodes[i].name == *name {
            count = count + 1;
        }
        i = i + 1;
    }
    assert(nodes@.take(nodes@.len() as int) =~= nodes@);
    count
}

/// Whether `node` is a function with more than one function of its name among `nodes`.
fn has_function_overloads(nodes: &Vec<DocNode>, node: &DocNode) -> (r: bool)
    ensures
        r == overloaded(nodes@, *node),
{
    if node.kind == DocNodeKind::Function {
        count_functions_named(nodes, &node.name) > 1
    } else {
        false
    }
}

/// The number of methods named `name`.
fn count_methods_named(methods: &Vec<ClassMethodDef>, name: &String) -> (r: usize)
    ensures
        r == method_count(methods@, name@),
{
    let mut count: usize = 0;
    let mut i: usize = 0;
    while i < methods.len()
        invariant
            i <= methods@.len(),
            count == method_count(methods@.take(i as int), name@),
            count <= i,
        decreases methods@.len() - i,
    {
        assert(methods@.take(i + 1).drop_last() =~= methods@.take(i as int));
        if methods[i].name == *name {
            count = count + 1;
        }
        i = i + 1;
    }
    assert(methods@.take(methods@.len() as int) =~= methods@);
    count
}

/// Appends `prefix` and the text, when there is one.
fn write_opt(w: &mut String, prefix: &str, o: &Option<String>)
    ensures
        final(w)@ == old(w)@ + opt_text(prefix@, *o),
{
    match o {
        Some(v) => {
            w.append(prefix);
            w.append(v.as_str());
        },
        None => {},
    }
}

/// Appends `prefix` and the items separated by `, `, when there are any.
fn write_list_clause(w: &mut String, prefix: &str, items: &Vec<String>)
    ensures
        final(w)@ == old(w)@ + list_clause_text(prefix@, items@),
{
    if items.len() > 0 {
        w.append(prefix);
        write_joined(w, items, ", ");
    }
}

/// `abstract ` for an abstract class.
fn write_abstract(w: &mut String, is_abstract: bool)
    ensures
        final(w)@ == old(w)@ + abstract_text(is_abstract),
{
    if is_abstract {
        w.append("abstract ");
    }
}

/// `async ` for an async function.
fn write_async(w: &mut String, is_async: bool)
    ensures
        final(w)@ == old(w)@ + async_text(is_async),
{
    if is_async {
        w.append("async ");
    }
}

/// `*` for a generator function.
fn write_generator(w: &mut String, is_generator: bool)
    ensures
        final(w)@ == old(w)@ + generator_text(is_generator),
{
    if is_generator {
        w.append("*");
    }
}

impl<'a> DocNodePrinter<'a> {
    /// The free text of a tag, if it has one.
    fn format_jsdoc_tag_maybe_doc(&self, w: &mut String, maybe_doc: &Option<String>, indent: usize)
        requires
            indent <= usize::MAX - 2,
        ensures
            final(w)@ == old(w)@ + tag_doc_text(*maybe_doc, indent as nat),
    {
        match maybe_doc {
            Some(doc) => {
                write_lines(w, doc.as_str(), indent + 2);
                w.append("\n");
            },
            None => {},
        }
    }

    fn format_named_tag(&self, w: &mut String, indent: usize, label: &str, name: &String, doc: &Option<String>)
        requires
            indent <= usize::MAX - 2,
        ensures
            final(w)@ == old(w)@ + named_tag_text(indent as nat, label@, *name, *doc),
    {
        write_tag_head(w, indent, label);
        w.append(" ");
        w.append(name.as_str());
        w.append("\n");
        self.format_jsdoc_tag_maybe_doc(w, doc, indent);
    }

    fn format_doc_tag(&self, w: &mut String, indent: usize, label: &str, doc: &Option<String>)
        requires
            indent <= usize::MAX - 2,
        ensures
            final(w)@ == old(w)@ + doc_tag_text(indent as nat, label@, *doc),
    {
        write_tag_head(w, indent, label);
        w.append("\n");
        self.format_jsdoc_tag_maybe_doc(w, doc, indent);
    }

    fn format_typed_tag(&self, w: &mut String, indent: usize, label: &str, type_ref: &String, doc: &Option<String>)
        requires
            indent <= usize::MAX - 2,
        ensures
            final(w)@ == old(w)@ + typed_tag_text(indent as nat, label@, *type_ref, *doc),
    {
        write_tag_head(w, indent, label);
        w.append(" {");
        w.append(type_ref.as_str());
        w.append("}");
        w.append("\n");
        self.format_jsdoc_tag_maybe_doc(w, doc, indent);
    }

    fn format_typed_named_tag(
        &self,
        w: &mut String,
        indent: usize,
        label: &str,
        type_ref: &String,
        name: &String,
        doc: &Option<String>,
    )
        requires
            indent <= usize::MAX - 2,
        ensures
            final(w)@ == old(w)@ + typed_named_tag_text(indent as nat, label@, *type_ref, *name, *doc),
    {
        write_tag_head(w, indent, label);
        w.append(" {");
        w.append(type_ref.as_str());
        w.append("}");
        w.append(" ");
        w.append(name.as_str());
        w.append("\n");
        self.format_jsdoc_tag_maybe_doc(w, doc, indent);
    }

    fn format_bare_tag(&self, w: &mut String, indent: usize, label: &str)
        ensures
            final(w)@ == old(w)@ + bare_tag_text(indent as nat, label@),
    {
        write_tag_head(w, indent, label);
        w.append("\n");
    }

    /// One JSDoc tag.
    #[verifier::rlimit(40)]
    fn format_jsdoc_tag(&self, w: &mut String, tag: &JsDocTag, indent: usize)
        requires
            indent <= usize::MAX - 2,
        ensures
            final(w)@ == old(w)@ + tag_text(*tag, indent as nat),
    {
        proof {
            reveal(tag_text);
        }
        match tag {
            JsDocTag::Callback { name, doc } => self.format_named_tag(w, indent, "callback", name, doc),
            JsDocTag::Category { doc } => self.format_doc_tag(w, indent, "category", doc),
            JsDocTag::Constructor => self.format_bare_tag(w, indent, "constructor"),
            JsDocTag::Default { value, doc } => self.format_typed_tag(w, indent, "default", value, doc),
            JsDocTag::Deprecated { doc } => self.format_doc_tag(w, indent, "deprecated", doc),
            JsDocTag::Enum { type_ref, doc } => self.format_typed_tag(w, indent, "enum", type_ref, doc),
            JsDocTag::Example { doc } => self.format_doc_tag(w, indent, "example", doc),
            JsDocTag::Extends { type_ref, doc } => self.format_typed_tag(
                w,
                indent,
                "extends",
                type_ref,
                doc,
            ),
            JsDocTag::Ignore => self.format_bare_tag(w, indent, "ignore"),
            JsDocTag::Module => self.format_bare_tag(w, indent, "module"),
            JsDocTag::Param { name, type_ref, optional, default, doc } => {
                write_tag_head(w, indent, "param");
                let ghost before = w@;
                match type_ref {
                    Some(type_ref) => {
                        w.append(" {");
                        w.append(type_ref.as_str());
                        w.append("}");
                    },
                    None => {},
                }
                if *optional {
                    w.append(" [?]");
                } else {
                    match default {
                        Some(default) => {
                            w.append(" [");
                            w.append(default.as_str());
                            w.append("]");
                        },
                        None => {},
                    }
                }
                assert(w@ =~= before + param_tag_middle(*type_ref, *optional, *default));
                w.append(" ");
                w.append(name.as_str());
                w.append("\n");
                self.format_jsdoc_tag_maybe_doc(w, doc, indent);
            },
            JsDocTag::Public => self.format_bare_tag(w, indent, "public"),
            JsDocTag::Private => self.format_bare_tag(w, indent, "private"),
            JsDocTag::Property { name, type_ref, doc } => self.format_typed_named_tag(
                w,
                indent,
                "property",
                type_ref,
                name,
                doc,
            ),
            JsDocTag::Protected => self.format_bare_tag(w, indent, "protected"),
            JsDocTag::ReadOnly => self.format_bare_tag(w, indent, "readonly"),
            JsDocTag::Return { type_ref, doc } => {
                write_tag_head(w, indent, "return");
                match type_ref {
                    Some(type_ref) => {
                        w.append(" {");
                        w.append(type_ref.as_str());
                        w.append("}");
                        w.append("\n");
                    },
                    None => {
                        w.append("\n");
                    },
                }
                self.format_jsdoc_tag_maybe_doc(w, doc, indent);
            },
            JsDocTag::Tags { tags } => {
                write_tag_head(w, indent, "tags");
                w.append(" ");
                write_joined(w, tags, ", ");
                w.append("\n");
            },
            JsDocTag::Template { name, doc } => self.format_named_tag(w, indent, "template", name, doc),
            JsDocTag::This { type_ref, doc } => self.format_typed_tag(w, indent, "this", type_ref, doc),
            JsDocTag::TypeDef { name, type_ref, doc } => self.format_typed_named_tag(
                w,
                indent,
                "typedef",
                type_ref,
                name,
                doc,
            ),
            JsDocTag::TypeRef { type_ref, doc } => self.format_typed_tag(
                w,
                indent,
                "typeref",
                type_ref,
                doc,
            ),
            JsDocTag::Unsupported { value } => self.format_bare_tag(w, indent, value.as_str()),
        }
    }

    /// A JSDoc comment: its free text, then an empty line and its tags if it has any.
    fn format_jsdoc(&self, w: &mut String, js_doc: &JsDoc, indent: usize)
        requires
            indent <= usize::MAX - 2,
        ensures
            final(w)@ == old(w)@ + jsdoc_text(*js_doc, indent as nat),
    {
        proof {
            reveal(jsdoc_text);
        }
        match &js_doc.doc {
            Some(doc) => write_lines(w, doc.as_str(), indent),
            None => {},
        }
        if js_doc.tags.len() > 0 {
            w.append("\n");
        }
        let ghost before_tags = w@;
        let mut i: usize = 0;
        while i < js_doc.tags.len()
            invariant
                indent <= usize::MAX - 2,
                i <= js_doc.tags@.len(),
                w@ == before_tags + tags_text(js_doc.tags@.take(i as int), indent as nat),
            decreases js_doc.tags@.len() - i,
        {
            self.format_jsdoc_tag(w, &js_doc.tags[i], indent);
            assert(js_doc.tags@.take(i + 1).drop_last() =~= js_doc.tags@.take(i as int));
            i = i + 1;
        }
        assert(js_doc.tags@.take(js_doc.tags@.len() as int) =~= js_doc.tags@);
    }

    fn format_class_head(&self, w: &mut String, node: &DocNode, indent: usize)
        requires
            node.class_def is Some,
        ensures
            final(w)@ == old(w)@ + class_head_text(*node, indent as nat),
    {
        proof {
            reveal(class_head_text);
        }
        let class_def = node.class_def.as_ref().unwrap();
        write_each_line(w, &class_def.decorators, indent);
        write_indent(w, indent);
        write_abstract(w, class_def.is_abstract);
        w.append("class ");
        w.append(node.name.as_str());
        write_angle_list(w, &class_def.type_params);
    }

    fn format_class_heritage(&self, w: &mut String, class_def: &ClassDef)
        ensures
            final(w)@ == old(w)@ + class_heritage_text(*class_def),
    {
        proof {
            reveal(class_heritage_text);
        }
        write_opt(w, " extends ", &class_def.extends);
        write_angle_list(w, &class_def.super_type_params);
        write_list_clause(w, " implements ", &class_def.implements);
        w.append("\n");
    }

    fn format_class_signature(&self, w: &mut String, node: &DocNode, indent: usize)
        requires
            node.class_def is Some,
        ensures
            final(w)@ == old(w)@ + class_signature_text(*node, indent as nat),
    {
        proof {
            reveal(class_signature_text);
        }
        self.format_class_head(w, node, indent);
        self.format_class_heritage(w, node.class_def.as_ref().unwrap());
    }

    fn format_enum_signature(&self, w: &mut String, node: &DocNode, indent: usize)
        ensures
            final(w)@ == old(w)@ + enum_signature_text(*node, indent as nat),
    {
        proof {
            reveal(enum_signature_text);
        }
        write_indent(w, indent);
        w.append("enum ");
        w.append(node.name.as_str());
        w.append("\n");
    }

    #[verifier::rlimit(40)]
    fn format_function_signature(&self, w: &mut String, node: &DocNode, indent: usize, has_overloads: bool)
        requires
            node.function_def is Some,
        ensures
            final(w)@ == old(w)@ + function_signature_text(*node, indent as nat, has_overloads),
    {
        proof {
            reveal(function_signature_text);
        }
        let function_def = node.function_def.as_ref().unwrap();
        if !has_overloads || !function_def.has_body {
            let ghost w0 = w@;
            write_indent(w, indent);
            write_async(w, function_def.is_async);
            w.append("function");
            write_generator(w, function_def.is_generator);
            w.append(" ");
            w.append(node.name.as_str());
            let ghost p1 = indent_text(indent as nat) + async_text(function_def.is_async) + "function"@
                + generator_text(function_def.is_generator) + " "@ + node.name@;
            assert(w@ =~= w0 + p1);
            write_angle_list(w, &function_def.type_params);
            w.append("(");
            write_joined(w, &function_def.params, ", ");
            w.append(")");
            let ghost p2 = p1 + angle_list_text(function_def.type_params@) + "("@ + join(
                views(function_def.params@),
                ", "@,
            ) + ")"@;
            assert(w@ =~= w0 + p2);
            write_opt(w, ": ", &function_def.return_type);
            w.append("\n");
            assert(w@ =~= w0 + (p2 + opt_text(": "@, function_def.return_type) + "\n"@));
        }
    }

    fn format_interface_signature(&self, w: &mut String, node: &DocNode, indent: usize)
        requires
            node.interface_def is Some,
        ensures
            final(w)@ == old(w)@ + interface_signature_text(*node, indent as nat),
    {
        proof {
            reveal(interface_signature_text);
        }
        let interface_def = node.interface_def.as_ref().unwrap();
        write_indent(w, indent);
        w.append("interface ");
        w.append(node.name.as_str());
        write_angle_list(w, &interface_def.type_params);
        write_list_clause(w, " extends ", &interface_def.extends);
        w.append("\n");
    }

    /// A module doc has no signature: its JSDoc is all there is to show.
    fn format_module_doc(&self, w: &mut String, node: &DocNode, indent: usize)
        ensures
            final(w)@ == old(w)@,
    {
    }

    fn format_type_alias_signature(&self, w: &mut String, node: &DocNode, indent: usize)
        requires
            node.type_alias_def is Some,
        ensures
            final(w)@ == old(w)@ + type_alias_signature_text(*node, indent as nat),
    {
        proof {
            reveal(type_alias_signature_text);
        }
        let type_alias_def = node.type_alias_def.as_ref().unwrap();
        write_indent(w, indent);
        w.append("type ");
        w.append(node.name.as_str());
        write_angle_list(w, &type_alias_def.type_params);
        w.append(" = ");
        w.append(type_alias_def.ts_type.as_str());
        w.append("\n");
    }

    fn format_namespace_signature(&self, w: &mut String, node: &DocNode, indent: usize)
        ensures
            final(w)@ == old(w)@ + namespace_signature_text(*node, indent as nat),
    {
        proof {
            reveal(namespace_signature_text);
        }
        write_indent(w, indent);
        w.append("namespace ");
        w.append(node.name.as_str());
        w.append("\n");
    }

    fn format_variable_signature(&self, w: &mut String, node: &DocNode, indent: usize)
        requires
            node.variable_def is Some,
        ensures
            final(w)@ == old(w)@ + variable_signature_text(*node, indent as nat),
    {
        proof {
            reveal(variable_signature_text);
        }
        let variable_def = node.variable_def.as_ref().unwrap();
        write_indent(w, indent);
        let keyword = match variable_def.kind {
            VarDeclKind::Const => "const",
            VarDeclKind::Let => "let",
            VarDeclKind::Var => "var",
        };
        assert(keyword@ == var_keyword(variable_def.kind));
        w.append(keyword);
        w.append(" ");
        w.append(node.name.as_str());
        write_opt(w, ": ", &variable_def.ts_type);
        w.append("\n");
    }

    /// The constructors of a class; when there are several, those with a body
    /// (the implementation of the overloads) are left out.
    fn format_class_constructors(&self, w: &mut String, ctors: &Vec<ClassConstructorDef>)
        ensures
            final(w)@ == old(w)@ + constructors_text(ctors@, ctors@.len() > 1),
    {
        let has_overloads = ctors.len() > 1;
        let mut i: usize = 0;
        while i < ctors.len()
            invariant
                i <= ctors@.len(),
                has_overloads == (ctors@.len() > 1),
                w@ == old(w)@ + constructors_text(ctors@.take(i as int), has_overloads),
            decreases ctors@.len() - i,
        {
            let ctor = &ctors[i];
            proof {
                reveal(constructor_text);
            }
            let ghost before = w@;
            if !has_overloads || !ctor.has_body {
                write_indent(w, 1);
                w.append(ctor.signature.as_str());
                w.append("\n");
                let ghost head = indent_text(1) + ctor.signature@ + "\n"@;
                assert(w@ =~= before + head);
                self.format_jsdoc(w, &ctor.js_doc, 2);
                assert(w@ =~= before + (head + jsdoc_text(ctor.js_doc, 2)));
            }
            assert(ctors@.take(i + 1).drop_last() =~= ctors@.take(i as int));
            i = i + 1;
        }
        assert(ctors@.take(ctors@.len() as int) =~= ctors@);
    }

    /// The properties of a class that are shown, each after its decorators.
    fn format_class_properties(&self, w: &mut String, props: &Vec<ClassPropertyDef>)
        ensures
            final(w)@ == old(w)@ + properties_text(props@, self.private),
    {
        let mut i: usize = 0;
        while i < props.len()
            invariant
                i <= props@.len(),
                w@ == old(w)@ + properties_text(props@.take(i as int), self.private),
            decreases props@.len() - i,
        {
            let prop = &props[i];
            proof {
                reveal(property_text);
            }
            let ghost before = w@;
            if is_member_visible(self.private, prop.accessibility) {
                write_each_line(w, &prop.decorators, 1);
                let ghost decos = each_line_text(prop.decorators@, 1);
                write_indent(w, 1);
                w.append(prop.signature.as_str());
                w.append("\n");
                let ghost head = decos + indent_text(1) + prop.signature@ + "\n"@;
                assert(w@ =~= before + head);
                self.format_jsdoc(w, &prop.js_doc, 2);
                assert(w@ =~= before + (head + jsdoc_text(prop.js_doc, 2)));
            }
            assert(props@.take(i + 1).drop_last() =~= props@.take(i as int));
            i = i + 1;
        }
        assert(props@.take(props@.len() as int) =~= props@);
    }

    /// The methods of a class that are shown, each after its decorators; when a
    /// name has several methods, those with a body (the implementation of the
    /// overloads) are left out.
    fn format_class_methods(&self, w: &mut String, methods: &Vec<ClassMethodDef>)
        ensures
            final(w)@ == old(w)@ + methods_text(methods@, methods@, self.private),
    {
        let mut i: usize = 0;
        while i < methods.len()
            invariant
                i <= methods@.len(),
                w@ == old(w)@ + methods_text(methods@.take(i as int), methods@, self.private),
            decreases methods@.len() - i,
        {
            let method = &methods[i];
            proof {
                reveal(method_text);
            }
            let ghost before = w@;
            if is_member_visible(self.private, method.accessibility) {
                let has_overloads = count_methods_named(methods, &method.name) > 1;
                if !has_overloads || !method.function_def.has_body {
                    write_each_line(w, &method.function_def.decorators, 1);
                    let ghost decos = each_line_text(method.function_def.decorators@, 1);
                    write_indent(w, 1);
                    w.append(method.signature.as_str());
                    w.append("\n");
                    let ghost head = decos + indent_text(1) + method.signature@ + "\n"@;
                    assert(w@ =~= before + head);
                    self.format_jsdoc(w, &method.js_doc, 2);
                    assert(w@ =~= before + (head + jsdoc_text(method.js_doc, 2)));
                }
            }
            assert(methods@.take(i + 1).drop_last() =~= methods@.take(i as int));
            i = i + 1;
        }
        assert(methods@.take(methods@.len() as int) =~= methods@);
    }

    /// The members of a class, then an empty line.
    fn format_class(&self, w: &mut String, node: &DocNode)
        requires
            node.class_def is Some,
        ensures
            final(w)@ == old(w)@ + class_body_text(*node, self.private),
    {
        proof {
            reveal(class_body_text);
        }
        let class_def = node.class_def.as_ref().unwrap();
        self.format_class_constructors(w, &class_def.constructors);
        self.format_class_properties(w, &class_def.properties);
        write_each_line(w, &class_def.index_signatures, 1);
        self.format_class_methods(w, &class_def.methods);
        w.append("\n");
    }

    /// The members of an enum, then an empty line.
    fn format_enum(&self, w: &mut String, node: &DocNode)
        requires
            node.enum_def is Some,
        ensures
            final(w)@ == old(w)@ + enum_body_text(*node),
    {
        proof {
            reveal(enum_body_text);
        }
        let enum_def = node.enum_def.as_ref().unwrap();
        let ghost w0 = w@;
        let mut i: usize = 0;
        while i < enum_def.members.len()
            invariant
                i <= enum_def.members@.len(),
                w@ == w0 + enum_members_text(enum_def.members@.take(i as int)),
            decreases enum_def.members@.len() - i,
        {
            let member = &enum_def.members[i];
            proof {
                reveal(enum_member_text);
            }
            let ghost before = w@;
            write_indent(w, 1);
            w.append(member.name.as_str());
            w.append("\n");
            self.format_jsdoc(w, &member.js_doc, 2);
            assert(w@ =~= before + enum_member_text(*member));
            assert(enum_def.members@.take(i + 1).drop_last() =~= enum_def.members@.take(i as int));
            i = i + 1;
        }
        assert(enum_def.members@.take(enum_def.members@.len() as int) =~= enum_def.members@);
        w.append("\n");
    }

    /// Interface members, each with its JSDoc.
    fn format_interface_members(&self, w: &mut String, members: &Vec<InterfaceMemberDef>)
        ensures
            final(w)@ == old(w)@ + interface_members_text(members@),
    {
        let mut i: usize = 0;
        while i < members.len()
            invariant
                i <= members@.len(),
                w@ == old(w)@ + interface_members_text(members@.take(i as int)),
            decreases members@.len() - i,
        {
            let member = &members[i];
            proof {
                reveal(interface_member_text);
            }
            let ghost before = w@;
            write_indent(w, 1);
            w.append(member.signature.as_str());
            w.append("\n");
            self.format_jsdoc(w, &member.js_doc, 2);
            assert(w@ =~= before + interface_member_text(*member));
            assert(members@.take(i + 1).drop_last() =~= members@.take(i as int));
            i = i + 1;
        }
        assert(members@.take(members@.len() as int) =~= members@);
    }

    /// The members of an interface, then an empty line.
    fn format_interface(&self, w: &mut String, node: &DocNode)
        requires
            node.interface_def is Some,
        ensures
            final(w)@ == old(w)@ + interface_body_text(*node),
    {
        proof {
            reveal(interface_body_text);
        }
        let interface_def = node.interface_def.as_ref().unwrap();
        self.format_interface_members(w, &interface_def.properties);
        self.format_interface_members(w, &interface_def.methods);
        write_each_line(w, &interface_def.index_signatures, 1);
        w.append("\n");
    }

    /// The elements of a namespace, each by its signature and its JSDoc, then an
    /// empty line.
    fn format_namespace(&self, w: &mut String, node: &DocNode)
        requires
            node.namespace_def is Some,
            forall|k: int|
                0 <= k < node.namespace_def.unwrap().elements@.len() ==> (
                #[trigger] node.namespace_def.unwrap().elements@[k]).has_signature_def(),
        ensures
            final(w)@ == old(w)@ + namespace_body_text(*node),
    {
        proof {
            reveal(namespace_body_text);
        }
        let elements = &node.namespace_def.as_ref().unwrap().elements;
        let mut i: usize = 0;
        while i < elements.len()
            invariant
                i <= elements@.len(),
                forall|k: int| 0 <= k < elements@.len() ==> (#[trigger] elements@[k]).has_signature_def(),
                w@ == old(w)@ + elements_text(elements@.take(i as int), elements@),
            decreases elements@.len() - i,
        {
            let element = &elements[i];
            proof {
                reveal(element_text);
            }
            let ghost before = w@;
            let has_overloads = has_function_overloads(elements, element);
            self.format_signature(w, element, 1, has_overloads);
            self.format_jsdoc(w, &element.js_doc, 2);
            assert(w@ =~= before + element_text(*element, elements@));
            assert(elements@.take(i + 1).drop_last() =~= elements@.take(i as int));
            i = i + 1;
        }
        assert(elements@.take(elements@.len() as int) =~= elements@);
        w.append("\n");
    }

    /// A whole node: its signature, its JSDoc one level deeper, an empty line, then
    /// the members of a class, enum, interface or namespace.
    fn format(&self, w: &mut String, node: &DocNode, indent: usize, has_overloads: bool)
        requires
            node.is_printable(),
            indent <= usize::MAX - 3,
        ensures
            final(w)@ == old(w)@ + node_text(*node, self.private, indent as nat, has_overloads),
    {
        proof {
            reveal(node_text);
            reveal(body_text);
        }
        self.format_signature(w, node, indent, has_overloads);
        self.format_jsdoc(w, &node.js_doc, indent + 1);
        w.append("\n");
        let ghost before_body = w@;
        match node.kind {
            DocNodeKind::Class => self.format_class(w, node),
            DocNodeKind::Enum => self.format_enum(w, node),
            DocNodeKind::Interface => self.format_interface(w, node),
            DocNodeKind::Namespace => self.format_namespace(w, node),
            _ => {},
        }
        assert(w@ == before_body + body_text(*node, self.private));
    }

    /// Writes the node this printer was made for.
    fn fmt(&self, w: &mut String)
        requires
            self.doc_node.is_printable(),
            self.indent <= usize::MAX - 3,
        ensures
            final(w)@ == old(w)@ + node_text(
                *self.doc_node,
                self.private,
                self.indent as nat,
                self.has_overloads,
            ),
    {
        self.format(w, self.doc_node, self.indent, self.has_overloads)
    }

    /// The signature of a node, by its kind.
    fn format_signature(&self, w: &mut String, node: &DocNode, indent: usize, has_overloads: bool)
        requires
            node.has_signature_def(),
        ensures
            final(w)@ == old(w)@ + signature_text(*node, indent as nat, has_overloads),
    {
        proof {
            reveal(signature_text);
        }
        match node.kind {
            DocNodeKind::ModuleDoc => self.format_module_doc(w, node, indent),
            DocNodeKind::Function => self.format_function_signature(w, node, indent, has_overloads),
            DocNodeKind::Variable => self.format_variable_signature(w, node, indent),
            DocNodeKind::Class => self.format_class_signature(w, node, indent),
            DocNodeKind::Enum => self.format_enum_signature(w, node, indent),
            DocNodeKind::Interface => self.format_interface_signature(w, node, indent),
            DocNodeKind::TypeAlias => self.format_type_alias_signature(w, node, indent),
            DocNodeKind::Namespace => self.format_namespace_signature(w, node, indent),
            DocNodeKind::Import => {},
        }
    }
}

/// The text of one node, without private class members unless `private` is set;
/// `has_overloads` tells that a function node is one of several overloads of its
/// name, so that the implementation (the one with a body) is not shown.
pub fn print_doc_node(node: &DocNode, private: bool, has_overloads: bool) -> (r: String)
    requires
        node.is_printable(),
    ensures
        r@ == doc_node_text(*node, private, has_overloads),
{
    let mut str = String::new();
    let printer = DocNodePrinter { doc_node: node, private, has_overloads, indent: 0 };
    printer.fmt(&mut str);
    str
}

/// The rank of a kind in a listing: module doc first, then functions, variables,
/// classes, enums, interfaces, type aliases, namespaces and imports.
fn kind_order(kind: &DocNodeKind) -> (r: i64)
    ensures
        r == kind_rank(*kind),
{
    match kind {
        DocNodeKind::ModuleDoc => 0,
        DocNodeKind::Function => 1,
        DocNodeKind::Variable => 2,
        DocNodeKind::Class => 3,
        DocNodeKind::Enum => 4,
        DocNodeKind::Interface => 5,
        DocNodeKind::TypeAlias => 6,
        DocNodeKind::Namespace => 7,
        DocNodeKind::Import => 8,
    }
}

/// Whether `a` is listed before `b`: by the rank of its kind, then by name.
fn listed_before(a: &DocNode, b: &DocNode) -> (r: bool)
    ensures
        r == node_before(*a, *b),
{
    let ka = kind_order(&a.kind);
    let kb = kind_order(&b.kind);
    if ka == kb {
        name_lt(a.name.as_str(), b.name.as_str())
    } else {
        ka < kb
    }
}

/// The position of a node that no other node of the list is listed before.
fn first_in_listing(nodes: &Vec<DocNode>) -> (m: usize)
    requires
        nodes@.len() > 0,
    ensures
        m < nodes@.len(),
        forall|k: int| 0 <= k < nodes@.len() ==> !node_before(#[trigger] nodes@[k], nodes@[m as int]),
{
    let mut m: usize = 0;
    let mut i: usize = 1;
    proof {
        lemma_node_before_irreflexive(nodes@[0]);
    }
    while i < nodes.len()
        invariant
            m < i <= nodes@.len(),
            forall|k: int| 0 <= k < i ==> !node_before(#[trigger] nodes@[k], nodes@[m as int]),
        decreases nodes@.len() - i,
    {
        if listed_before(&nodes[i], &nodes[m]) {
            proof {
                lemma_node_before_irreflexive(nodes@[i as int]);
                assert forall|k: int| 0 <= k < i + 1 implies !node_before(
                    #[trigger] nodes@[k],
                    nodes@[i as int],
                ) by {
                    if k < i && node_before(nodes@[k], nodes@[i as int]) {
                        lemma_node_before_transitive(nodes@[k], nodes@[i as int], nodes@[m as int]);
                    }
                }
            }
            m = i;
        }
        i = i + 1;
    }
    m
}

/// The nodes in listing order: a reordering of the list in which no node is listed
/// before one that precedes it.
fn sort_for_listing(nodes: Vec<DocNode>) -> (r: Vec<DocNode>)
    ensures
        r@.to_multiset() == nodes@.to_multiset(),
        in_listing_order(r@),
{
    broadcast use vstd::seq_lib::group_to_multiset_ensures;

    let ghost all = nodes@;
    let mut rest = nodes;
    let mut sorted: Vec<DocNode> = Vec::new();
    assert(sorted@.to_multiset().add(rest@.to_multiset()) =~= all.to_multiset());
    while rest.len() > 0
        invariant
            sorted@.to_multiset().add(rest@.to_multiset()) == all.to_multiset(),
            in_listing_order(sorted@),
            forall|a: int, b: int|
                0 <= a < sorted@.len() && 0 <= b < rest@.len() ==> !node_before(
                    #[trigger] rest@[b],
                    #[trigger] sorted@[a],
                ),
        decreases rest@.len(),
    {
        let m = first_in_listing(&rest);
        let ghost old_rest = rest@;
        let ghost old_sorted = sorted@;
        let x = rest.remove(m);
        proof {
            broadcast use vstd::seq_lib::group_to_multiset_ensures;

            assert(old_rest[m as int] == x);
            assert(old_rest.contains(x));
            assert(old_rest.to_multiset().count(x) > 0);
            assert(rest@.to_multiset() == old_rest.to_multiset().remove(x));
        }
        sorted.push(x);
        proof {
            broadcast use vstd::seq_lib::group_to_multiset_ensures;

            assert(sorted@.to_multiset() == old_sorted.to_multiset().insert(x));
            assert(sorted@.to_multiset().add(rest@.to_multiset()) =~= all.to_multiset());
        }
        assert forall|i: int, j: int| 0 <= i < j < sorted@.len() implies !node_before(
            #[trigger] sorted@[j],
            #[trigger] sorted@[i],
        ) by {
            if j < old_sorted.len() {
                assert(sorted@[j] == old_sorted[j] && sorted@[i] == old_sorted[i]);
            } else {
                assert(sorted@[i] == old_sorted[i]);
                assert(!node_before(old_rest[m as int], old_sorted[i]));
            }
        }
        assert forall|a: int, b: int| 0 <= a < sorted@.len() && 0 <= b < rest@.len() implies !node_before(
            #[trigger] rest@[b],
            #[trigger] sorted@[a],
        ) by {
            let ob = if b < m { b } else { b + 1 };
            assert(rest@[b] == old_rest[ob]);
            if a < old_sorted.len() {
                assert(sorted@[a] == old_sorted[a]);
            } else {
                assert(!node_before(old_rest[ob], old_rest[m as int]));
            }
        }
    }
    assert(rest@ =~= Seq::<DocNode>::empty());
    assert(sorted@.to_multiset() =~= all.to_multiset());
    sorted
}

/// Every node, in listing order (by kind: module doc, functions, variables,
/// classes, enums, interfaces, type aliases, namespaces, imports; then by name),
/// with its text. Private class members are left out unless `private` is set; a
/// function counts as overloaded when the list holds more than one function of its
/// name.
pub fn print_doc_nodes_assoc(nodes: Vec<DocNode>, private: bool) -> (r: Vec<(DocNode, String)>)
    requires
        forall|i: int| 0 <= i < nodes@.len() ==> (#[trigger] nodes@[i]).is_printable(),
    ensures
        r@.len() == nodes@.len(),
        first_of_pairs(r@).to_multiset() == nodes@.to_multiset(),
        in_listing_order(first_of_pairs(r@)),
        forall|i: int|
            0 <= i < r@.len() ==> (#[trigger] r@[i]).1@ == doc_node_text(
                r@[i].0,
                private,
                overloaded(nodes@, r@[i].0),
            ),
{
    broadcast use vstd::seq_lib::group_to_multiset_ensures;

    let ghost all = nodes@;
    let mut sorted = sort_for_listing(nodes);
    let ghost listing = sorted@;
    assert forall|i: int| 0 <= i < listing.len() implies (#[trigger] listing[i]).is_printable() by {
        assert(listing.contains(listing[i]));
        assert(all.to_multiset().count(listing[i]) > 0);
        assert(all.contains(listing[i]));
    }
    let mut texts: Vec<String> = Vec::new();
    let mut i: usize = 0;
    while i < sorted.len()
        invariant
            sorted@ == listing,
            i <= listing.len(),
            texts@.len() == i,
            forall|k: int| 0 <= k < listing.len() ==> (#[trigger] listing[k]).is_printable(),
            forall|k: int|
                0 <= k < i ==> (#[trigger] texts@[k])@ == doc_node_text(
                    listing[k],
                    private,
                    overloaded(listing, listing[k]),
                ),
        decreases listing.len() - i,
    {
        let has_overloads = has_function_overloads(&sorted, &sorted[i]);
        let text = print_doc_node(&sorted[i], private, has_overloads);
        texts.push(text);
        i = i + 1;
    }
    let ghost all_texts = texts@;
    let ghost n = listing.len() as int;
    // Take the pairs off the back, then off the back again, to restore the order.
    let mut reversed: Vec<(DocNode, String)> = Vec::new();
    while sorted.len() > 0
        invariant
            all_texts.len() == n,
            listing.len() == n,
            sorted@.len() == texts@.len(),
            sorted@ == listing.take(sorted@.len() as int),
            texts@ == all_texts.take(texts@.len() as int),
            reversed@.len() + sorted@.len() == n,
            forall|q: int|
                0 <= q < reversed@.len() ==> (#[trigger] reversed@[q]).0 == listing[n - 1 - q]
                    && reversed@[q].1 == all_texts[n - 1 - q],
        decreases sorted@.len(),
    {
        let node = sorted.pop().unwrap();
        let text = texts.pop().unwrap();
        reversed.push((node, text));
        assert(sorted@ =~= listing.take(sorted@.len() as int));
        assert(texts@ =~= all_texts.take(texts@.len() as int));
    }
    let ghost backwards = reversed@;
    let mut r: Vec<(DocNode, String)> = Vec::new();
    while reversed.len() > 0
        invariant
            backwards.len() == n,
            reversed@ == backwards.take(reversed@.len() as int),
            r@.len() + reversed@.len() == n,
            forall|q: int| 0 <= q < n ==> (#[trigger] backwards[q]).0 == listing[n - 1 - q] && backwards[q].1
                == all_texts[n - 1 - q],
            forall|j: int| 0 <= j < r@.len() ==> (#[trigger] r@[j]).0 == listing[j] && r@[j].1 == all_texts[j],
        decreases reversed@.len(),
    {
        let pair = reversed.pop().unwrap();
        proof {
            let q = reversed@.len() as int;
            assert(pair == backwards[q]);
            assert(n - 1 - q == r@.len());
        }
        r.push(pair);
        assert(reversed@ =~= backwards.take(reversed@.len() as int));
    }
    let ghost k = r@.len();
    assert(k == listing.len());
    assert(listing.len() == all.len()) by {
        assert(listing.to_multiset().len() == all.to_multiset().len());
    }
    assert(first_of_pairs(r@) =~= listing);
    assert forall|j: int| 0 <= j < r@.len() implies (#[trigger] r@[j]).1@ == doc_node_text(
        r@[j].0,
        private,
        overloaded(all, r@[j].0),
    ) by {
        law_overloaded_independent_of_order(listing, all, r@[j].0);
    }
    r
}

} // verus!
