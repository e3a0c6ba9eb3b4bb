//! Properties of the printer that hold across calls and inputs.
use vstd::prelude::*;
use crate::layout::{
    body_text, class_body_text, doc_node_text, enum_body_text, function_count,
    function_signature_text, in_listing_order, interface_body_text, jsdoc_text, kind_rank,
    lemma_node_before_irreflexive, method_text, methods_text, namespace_body_text, node_before,
    node_text, overloaded, properties_text, property_text, signature_text, tag_text,
    class_head_text, class_heritage_text, class_signature_text, element_text, elements_text,
    interface_signature_text, tag_doc_text, tag_head_text, braced_text, angle_list_text,
    list_clause_text, opt_text, async_text, generator_text, type_alias_signature_text,
    enum_body_text as enum_members_body_text, enum_member_text, enum_members_text,
    interface_member_text, interface_members_text, constructor_text, constructors_text,
    each_line_text, enum_signature_text, namespace_signature_text, variable_signature_text,
    var_keyword, tags_text, jsdoc_text as jsdoc_layout, member_visible, method_count,
};
use crate::node::{
    JsDoc, EnumMemberDef, InterfaceMemberDef, ClassConstructorDef, Accessibility, ClassMethodDef, ClassPropertyDef, DocNode, DocNodeKind, JsDocTag,
};
use crate::text::{
    contains_text, join, law_join_contains_every_item, law_prefix_comes_first,
    lemma_contains_left, lemma_contains_middle, lemma_contains_right, lemma_contains_self, lemma_contains_transitive,
    lemma_name_before_total, lines_text, text_lines, views, indent_text,
};

verus! {

proof fn lemma_function_count_remove(s: Seq<DocNode>, k: int, name: Seq<char>)
    requires
        0 <= k < s.len(),
    ensures
        function_count(s, name) == function_count(s.remove(k), name) + if s[k].kind
            == DocNodeKind::Function && s[k].name@ == name {
            1nat
        } else {
            0nat
        },
    decreases s.len(),
{
    if k == s.len() - 1 {
        assert(s.remove(k) =~= s.drop_last());
    } else {
        lemma_function_count_remove(s.drop_last(), k, name);
        assert(s.remove(k).drop_last() =~= s.drop_last().remove(k));
        assert(s.remove(k).last() == s.last());
    }
}

/// The number of functions of a name does not depend on the order of the list.
pub proof fn lemma_function_count_permutation(s1: Seq<DocNode>, s2: Seq<DocNode>, name: Seq<char>)
    requires
        s1.to_multiset() == s2.to_multiset(),
    ensures
        function_count(s1, name) == function_count(s2, name),
    decreases s1.len(),
{
    broadcast use vstd::seq_lib::group_to_multiset_ensures;

    if s1.len() == 0 {
        assert(s2.to_multiset().len() == 0);
        assert(s2 =~= Seq::<DocNode>::empty());
    } else {
        let x = s1.last();
        let rest1 = s1.drop_last();
        assert(rest1.push(x) =~= s1);
        assert(s1.to_multiset() == rest1.to_multiset().insert(x));
        assert(s1.contains(x)) by {
            assert(s1[s1.len() - 1] == x);
        }
        assert(s2.to_multiset().count(x) > 0);
        assert(s2.contains(x));
        let k = choose|k: int| 0 <= k < s2.len() && s2[k] == x;
        lemma_function_count_remove(s2, k, name);
        assert(s2.remove(k).to_multiset() =~= rest1.to_multiset());
        lemma_function_count_permutation(rest1, s2.remove(k), name);
    }
}

/// Whether a node counts as an overloaded function of a list does not depend on
/// the order of the list: any reordering of the list gives the same answer.
pub proof fn law_overloaded_independent_of_order(s1: Seq<DocNode>, s2: Seq<DocNode>, node: DocNode)
    requires
        s1.to_multiset() == s2.to_multiset(),
    ensures
        overloaded(s1, node) == overloaded(s2, node),
{
    lemma_function_count_permutation(s1, s2, node.name@);
}

/// The class has a member marked private.
pub open spec fn has_private_members(node: DocNode) -> bool {
    node.kind == DocNodeKind::Class && match node.class_def {
        Some(class_def) => (exists|i: int|
            0 <= i < class_def.properties@.len() && (#[trigger] class_def.properties@[i]).accessibility
                == Some(Accessibility::Private)) || (exists|i: int|
            0 <= i < class_def.methods@.len() && (#[trigger] class_def.methods@[i]).accessibility
                == Some(Accessibility::Private)),
        None => false,
    }
}

proof fn lemma_properties_private_flag(ps: Seq<ClassPropertyDef>)
    requires
        forall|i: int| 0 <= i < ps.len() ==> (#[trigger] ps[i]).accessibility != Some(Accessibility::Private),
    ensures
        properties_text(ps, true) == properties_text(ps, false),
    decreases ps.len(),
{
    reveal(property_text);
    if ps.len() > 0 {
        lemma_properties_private_flag(ps.drop_last());
        assert(ps.last() == ps[ps.len() - 1]);
    }
}

proof fn lemma_methods_private_flag(ms: Seq<ClassMethodDef>, all: Seq<ClassMethodDef>)
    requires
        forall|i: int| 0 <= i < ms.len() ==> (#[trigger] ms[i]).accessibility != Some(Accessibility::Private),
    ensures
        methods_text(ms, all, true) == methods_text(ms, all, false),
    decreases ms.len(),
{
    reveal(method_text);
    if ms.len() > 0 {
        lemma_methods_private_flag(ms.drop_last(), all);
        assert(ms.last() == ms[ms.len() - 1]);
    }
}

/// Asking for private members changes the text of a node only when it is a class
/// with a member marked private.
pub proof fn law_private_flag_only_shows_private_members(node: DocNode, has_overloads: bool)
    requires
        node.is_printable(),
        !has_private_members(node),
    ensures
        doc_node_text(node, true, has_overloads) == doc_node_text(node, false, has_overloads),
{
    reveal(node_text);
    reveal(body_text);
    if node.kind == DocNodeKind::Class {
        reveal(class_body_text);
        let class_def = node.class_def.unwrap();
        lemma_properties_private_flag(class_def.properties@);
        lemma_methods_private_flag(class_def.methods@, class_def.methods@);
    }
}

/// Telling the printer that a node is one of several overloads changes its text
/// only for a function with a body, the implementation of the overloads: its
/// signature is left out and only its JSDoc and the empty line after it remain.
pub proof fn law_overloads_hide_only_the_implementation(node: DocNode, private: bool)
    requires
        node.is_printable(),
    ensures
        !(node.kind == DocNodeKind::Function && node.function_def.unwrap().has_body) ==> doc_node_text(
            node,
            private,
            true,
        ) == doc_node_text(node, private, false),
        node.kind == DocNodeKind::Function && node.function_def.unwrap().has_body ==> doc_node_text(
            node,
            private,
            true,
        ) == jsdoc_text(node.js_doc, 1) + "\n"@,
{
    reveal(node_text);
    reveal(signature_text);
    reveal(function_signature_text);
    reveal(body_text);
    if node.kind == DocNodeKind::Function && node.function_def.unwrap().has_body {
        assert(doc_node_text(node, private, true) =~= jsdoc_text(node.js_doc, 1) + "\n"@);
    }
}

/// The text of a node is never empty and ends with a line feed.
pub proof fn law_text_ends_with_line_feed(node: DocNode, private: bool, has_overloads: bool)
    ensures
        doc_node_text(node, private, has_overloads).len() > 0,
        doc_node_text(node, private, has_overloads).last() == '\n',
{
    reveal_strlit("\n");
    reveal(node_text);
    reveal(body_text);
    reveal(class_body_text);
    reveal(enum_body_text);
    reveal(interface_body_text);
    reveal(namespace_body_text);
    let text = doc_node_text(node, private, has_overloads);
    let head = signature_text(node, 0, has_overloads) + jsdoc_text(node.js_doc, 1) + "\n"@;
    assert(head.len() > 0 && head.last() == '\n');
    let body = body_text(node, private);
    assert(text == head + body);
    assert(body.len() == 0 || body.last() == '\n');
    if body.len() == 0 {
        assert(text =~= head);
    } else {
        assert(text.last() == body.last());
    }
}

/// Two nodes have the same place in a listing: the same kind rank and the same name.
pub open spec fn same_listing_key(a: DocNode, b: DocNode) -> bool {
    kind_rank(a.kind) == kind_rank(b.kind) && a.name@ == b.name@
}

proof fn lemma_listing_key_total(a: DocNode, b: DocNode)
    requires
        !node_before(a, b),
        !node_before(b, a),
    ensures
        same_listing_key(a, b),
{
    if kind_rank(a.kind) == kind_rank(b.kind) && a.name@ != b.name@ {
        lemma_name_before_total(a.name@, b.name@);
    }
}

/// However a list of nodes is ordered, its listing has the same kind rank and the
/// same name at each position: two lists in listing order that hold the same
/// nodes differ at most in the order of nodes of the same kind and name.
pub proof fn law_listing_order_is_determined(s1: Seq<DocNode>, s2: Seq<DocNode>)
    requires
        s1.to_multiset() == s2.to_multiset(),
        in_listing_order(s1),
        in_listing_order(s2),
    ensures
        s1.len() == s2.len(),
        forall|i: int| 0 <= i < s1.len() ==> same_listing_key(#[trigger] s1[i], s2[i]),
    decreases s2.len(),
{
    broadcast use vstd::seq_lib::group_to_multiset_ensures;

    assert(s1.to_multiset().len() == s1.len());
    assert(s2.to_multiset().len() == s2.len());
    if s2.len() > 0 {
        let x = s2[0];
        assert(s2.contains(x));
        assert(s1.to_multiset().count(x) > 0);
        assert(s1.contains(x));
        let j = choose|j: int| 0 <= j < s1.len() && s1[j] == x;
        let y = s1[0];
        assert(s1.contains(y));
        assert(s2.to_multiset().count(y) > 0);
        assert(s2.contains(y));
        let k = choose|k: int| 0 <= k < s2.len() && s2[k] == y;
        // The first of each list is not listed after the first of the other.
        if j > 0 {
            assert(!node_before(s1[j], s1[0]));
        }
        if k > 0 {
            assert(!node_before(s2[k], s2[0]));
        }
        lemma_node_before_irreflexive(x);
        lemma_listing_key_total(x, y);
        // Every node of s1 up to position j has the key of x.
        assert forall|i: int| 0 <= i <= j implies same_listing_key(#[trigger] s1[i], x) by {
            if 0 < i {
                assert(!node_before(s1[i], s1[0]));
                if i < j {
                    assert(!node_before(s1[j], s1[i]));
                }
                if !same_listing_key(s1[i], x) {
                    lemma_listing_key_total(s1[i], s1[0]);
                }
            }
        }
        let r1 = s1.remove(j);
        let r2 = s2.drop_first();
        assert(r2 =~= s2.remove(0));
        assert(r1.to_multiset() =~= r2.to_multiset());
        assert forall|a: int, b: int| 0 <= a < b < r1.len() implies !node_before(
            #[trigger] r1[b],
            #[trigger] r1[a],
        ) by {
            let oa = if a < j { a } else { a + 1 };
            let ob = if b < j { b } else { b + 1 };
            assert(r1[a] == s1[oa] && r1[b] == s1[ob]);
        }
        assert forall|a: int, b: int| 0 <= a < b < r2.len() implies !node_before(
            #[trigger] r2[b],
            #[trigger] r2[a],
        ) by {
            assert(r2[a] == s2[a + 1] && r2[b] == s2[b + 1]);
        }
        law_listing_order_is_determined(r1, r2);
        assert forall|i: int| 0 <= i < s1.len() implies same_listing_key(#[trigger] s1[i], s2[i]) by {
            if i == 0 {
            } else if i <= j {
                assert(same_listing_key(r1[i - 1], r2[i - 1]));
                assert(r1[i - 1] == s1[i - 1]);
                assert(r2[i - 1] == s2[i]);
                assert(same_listing_key(s1[i - 1], x));
                assert(same_listing_key(s1[i], x));
            } else {
                assert(same_listing_key(r1[i - 1], r2[i - 1]));
                assert(r1[i - 1] == s1[i]);
                assert(r2[i - 1] == s2[i]);
            }
        }
    }
}

/// The overload flag changes only the signature of a function: for a node of any
/// other kind, at any indentation, its signature and its whole text are the same
/// either way.
pub proof fn law_overloads_change_only_function_signatures(
    node: DocNode,
    private: bool,
    indent: nat,
)
    requires
        node.kind != DocNodeKind::Function,
    ensures
        signature_text(node, indent, true) == signature_text(node, indent, false),
        node_text(node, private, indent, true) == node_text(node, private, indent, false),
{
    reveal(signature_text);
    reveal(node_text);
}

/// The rank of a kind in a listing is one of 0 to 8, and no two kinds share a rank.
pub proof fn law_kind_rank_one_to_one(a: DocNodeKind, b: DocNodeKind)
    ensures
        0 <= kind_rank(a) <= 8,
        kind_rank(a) == kind_rank(b) <==> a == b,
{
}

/// The free text of a tag, if the tag's kind has one.
pub open spec fn tag_doc(tag: JsDocTag) -> Option<String> {
    match tag {
        JsDocTag::Callback { doc, .. } => doc,
        JsDocTag::Category { doc } => doc,
        JsDocTag::Default { doc, .. } => doc,
        JsDocTag::Deprecated { doc } => doc,
        JsDocTag::Enum { doc, .. } => doc,
        JsDocTag::Example { doc } => doc,
        JsDocTag::Extends { doc, .. } => doc,
        JsDocTag::Param { doc, .. } => doc,
        JsDocTag::Property { doc, .. } => doc,
        JsDocTag::Return { doc, .. } => doc,
        JsDocTag::Template { doc, .. } => doc,
        JsDocTag::This { doc, .. } => doc,
        JsDocTag::TypeDef { doc, .. } => doc,
        JsDocTag::TypeRef { doc, .. } => doc,
        _ => None,
    }
}

/// The tag without its free text.
pub open spec fn tag_without_doc(tag: JsDocTag) -> JsDocTag {
    match tag {
        JsDocTag::Callback { name, .. } => JsDocTag::Callback { name, doc: None },
        JsDocTag::Category { .. } => JsDocTag::Category { doc: None },
        JsDocTag::Default { value, .. } => JsDocTag::Default { value, doc: None },
        JsDocTag::Deprecated { .. } => JsDocTag::Deprecated { doc: None },
        JsDocTag::Enum { type_ref, .. } => JsDocTag::Enum { type_ref, doc: None },
        JsDocTag::Example { .. } => JsDocTag::Example { doc: None },
        JsDocTag::Extends { type_ref, .. } => JsDocTag::Extends { type_ref, doc: None },
        JsDocTag::Param { name, type_ref, optional, default, .. } => JsDocTag::Param {
            name,
            type_ref,
            optional,
            default,
            doc: None,
        },
        JsDocTag::Property { name, type_ref, .. } => JsDocTag::Property { name, type_ref, doc: None },
        JsDocTag::Return { type_ref, .. } => JsDocTag::Return { type_ref, doc: None },
        JsDocTag::Template { name, .. } => JsDocTag::Template { name, doc: None },
        JsDocTag::This { type_ref, .. } => JsDocTag::This { type_ref, doc: None },
        JsDocTag::TypeDef { name, type_ref, .. } => JsDocTag::TypeDef { name, type_ref, doc: None },
        JsDocTag::TypeRef { type_ref, .. } => JsDocTag::TypeRef { type_ref, doc: None },
        _ => tag,
    }
}

/// At any indentation, a tag's text is the text of the tag without its free text,
/// then, when it has free text, each of its lines two levels deeper and an empty
/// line; without free text nothing follows the tag's line.
pub proof fn law_tag_doc_follows_its_line(tag: JsDocTag, indent: nat)
    ensures
        tag_text(tag, indent) == tag_text(tag_without_doc(tag), indent) + match tag_doc(tag) {
            Some(d) => lines_text(text_lines(d@), indent + 2) + "\n"@,
            None => Seq::empty(),
        },
{
    reveal(tag_text);
    assert(tag_text(tag, indent) =~= tag_text(tag_without_doc(tag), indent) + match tag_doc(tag) {
        Some(d) => lines_text(text_lines(d@), indent + 2) + "\n"@,
        None => Seq::empty(),
    });
}

/// Of two nodes of the same kind, the one whose name begins the other's (and is
/// shorter) is listed first: `get` before `getAll`, the empty name before any other.
pub proof fn law_listing_puts_name_prefix_first(a: DocNode, b: DocNode)
    requires
        kind_rank(a.kind) == kind_rank(b.kind),
        a.name@.len() < b.name@.len(),
        b.name@.take(a.name@.len() as int) == a.name@,
    ensures
        node_before(a, b),
        !node_before(b, a),
{
    law_prefix_comes_first(a.name@, b.name@);
}

/// A class signature with implemented interfaces shows ` implements ` and all of
/// them, in order, separated by `, `; so each implemented interface appears in it.
pub proof fn law_class_signature_shows_every_interface(node: DocNode, indent: nat, i: int)
    requires
        node.class_def is Some,
        0 <= i < node.class_def.unwrap().implements@.len(),
    ensures
        contains_text(
            class_signature_text(node, indent),
            " implements "@ + join(views(node.class_def.unwrap().implements@), ", "@),
        ),
        contains_text(class_signature_text(node, indent), node.class_def.unwrap().implements@[i]@),
{
    reveal(class_signature_text);
    reveal(class_heritage_text);
    let class_def = node.class_def.unwrap();
    let items = views(class_def.implements@);
    let joined = join(items, ", "@);
    let clause = " implements "@ + joined;
    let before = crate::layout::opt_text(" extends "@, class_def.extends)
        + crate::layout::angle_list_text(class_def.super_type_params@);
    let heritage = class_heritage_text(class_def);
    assert(heritage == before + clause + "\n"@);
    lemma_contains_self(clause);
    lemma_contains_right(before, clause, clause);
    lemma_contains_left(before + clause, "\n"@, clause);
    lemma_contains_right(class_head_text(node, indent), heritage, clause);
    assert(items[i] == class_def.implements@[i]@);
    law_join_contains_every_item(items, ", "@, i);
    lemma_contains_right(" implements "@, joined, items[i]);
    lemma_contains_transitive(class_signature_text(node, indent), clause, items[i]);
}

/// An interface signature with type parameters shows all of them, in order,
/// separated by `, ` between `<` and `>`; so each type parameter appears in it.
pub proof fn law_interface_signature_shows_every_type_param(node: DocNode, indent: nat, i: int)
    requires
        node.interface_def is Some,
        0 <= i < node.interface_def.unwrap().type_params@.len(),
    ensures
        contains_text(
            interface_signature_text(node, indent),
            "<"@ + join(views(node.interface_def.unwrap().type_params@), ", "@) + ">"@,
        ),
        contains_text(interface_signature_text(node, indent), node.interface_def.unwrap().type_params@[i]@),
{
    reveal(interface_signature_text);
    let interface_def = node.interface_def.unwrap();
    let items = views(interface_def.type_params@);
    let joined = join(items, ", "@);
    let angle = "<"@ + joined + ">"@;
    let head = crate::text::indent_text(indent) + "interface "@ + node.name@;
    let tail = crate::layout::list_clause_text(" extends "@, interface_def.extends@) + "\n"@;
    assert(interface_signature_text(node, indent) == head + angle + tail);
    lemma_contains_self(angle);
    lemma_contains_right(head, angle, angle);
    lemma_contains_left(head + angle, tail, angle);
    assert(items[i] == interface_def.type_params@[i]@);
    law_join_contains_every_item(items, ", "@, i);
    lemma_contains_right("<"@, joined, items[i]);
    lemma_contains_left("<"@ + joined, ">"@, items[i]);
    lemma_contains_transitive(interface_signature_text(node, indent), angle, items[i]);
}

proof fn lemma_elements_text_contains(es: Seq<DocNode>, all: Seq<DocNode>, i: int)
    requires
        0 <= i < es.len(),
    ensures
        contains_text(elements_text(es, all), element_text(es[i], all)),
    decreases es.len(),
{
    if i == es.len() - 1 {
        lemma_contains_self(element_text(es[i], all));
        lemma_contains_right(elements_text(es.drop_last(), all), element_text(es.last(), all), element_text(es[i], all));
    } else {
        lemma_elements_text_contains(es.drop_last(), all, i);
        assert(es.drop_last()[i] == es[i]);
        lemma_contains_left(elements_text(es.drop_last(), all), element_text(es.last(), all), element_text(es[i], all));
    }
}

/// Every element of a namespace, whatever its kind, is shown by its signature one
/// level in, followed at once by its JSDoc two levels in, both in the namespace's
/// members and in the printed namespace.
pub proof fn law_namespace_shows_each_element_with_its_jsdoc(
    node: DocNode,
    private: bool,
    has_overloads: bool,
    i: int,
)
    requires
        node.namespace_def is Some,
        0 <= i < node.namespace_def.unwrap().elements@.len(),
    ensures
        ({
            let elements = node.namespace_def.unwrap().elements@;
            let e = elements[i];
            let shown = signature_text(e, 1, overloaded(elements, e)) + jsdoc_text(e.js_doc, 2);
            &&& contains_text(namespace_body_text(node), shown)
            &&& node.kind == DocNodeKind::Namespace ==> contains_text(
                doc_node_text(node, private, has_overloads),
                shown,
            )
        }),
{
    reveal(namespace_body_text);
    reveal(element_text);
    let elements = node.namespace_def.unwrap().elements@;
    let e = elements[i];
    let shown = signature_text(e, 1, overloaded(elements, e)) + jsdoc_text(e.js_doc, 2);
    lemma_elements_text_contains(elements, elements, i);
    lemma_contains_left(elements_text(elements, elements), "\n"@, shown);
    if node.kind == DocNodeKind::Namespace {
        reveal(node_text);
        reveal(body_text);
        let head = signature_text(node, 0, has_overloads) + jsdoc_text(node.js_doc, 1) + "\n"@;
        assert(doc_node_text(node, private, has_overloads) == head + namespace_body_text(node));
        lemma_contains_right(head, namespace_body_text(node), shown);
    }
}

/// Marking a `@param` tag optional puts ` [?]` just before ` name` and changes
/// nothing else, whether or not the tag has a type; so the text of an optional
/// parameter holds ` [?] name`.
#[verifier::rlimit(40)]
pub proof fn law_optional_param_is_marked(
    name: String,
    type_ref: Option<String>,
    default: Option<String>,
    doc: Option<String>,
    indent: nat,
)
    ensures
        ({
            let marked = tag_text(
                JsDocTag::Param { name, type_ref, optional: true, default, doc },
                indent,
            );
            let plain = tag_text(
                JsDocTag::Param { name, type_ref, optional: false, default: None, doc },
                indent,
            );
            &&& exists|k: int|
                0 <= k <= plain.len() && marked == plain.take(k) + " [?]"@ + #[trigger] plain.skip(k)
                    && plain.skip(k).take((" "@ + name@).len() as int) == " "@ + name@
            &&& contains_text(marked, " [?]"@ + " "@ + name@)
        }),
{
    reveal(tag_text);
    let marked = tag_text(JsDocTag::Param { name, type_ref, optional: true, default, doc }, indent);
    let plain = tag_text(JsDocTag::Param { name, type_ref, optional: false, default: None, doc }, indent);
    let typed = match type_ref {
        Some(t) => braced_text(t@),
        None => Seq::<char>::empty(),
    };
    let front = tag_head_text(indent, "param"@) + typed;
    let back = " "@ + name@ + "\n"@ + tag_doc_text(doc, indent);
    assert(plain =~= front + back);
    assert(marked =~= front + " [?]"@ + back);
    let k = front.len() as int;
    assert(plain.take(k) =~= front);
    assert(plain.skip(k) =~= back);
    assert(back.take((" "@ + name@).len() as int) =~= " "@ + name@);
    assert(marked == plain.take(k) + " [?]"@ + plain.skip(k));
    let piece = " [?]"@ + " "@ + name@;
    assert(marked.subrange(k, k + piece.len()) =~= piece);
    assert(crate::text::occurs_at(marked, piece, k));
}

/// A list shown between `open` and `close` with `, ` between its items contains
/// every item.
proof fn lemma_bracketed_list_contains_item(open: Seq<char>, items: Seq<String>, close: Seq<char>, i: int)
    requires
        0 <= i < items.len(),
    ensures
        contains_text(open + join(views(items), ", "@) + close, items[i]@),
{
    let joined = join(views(items), ", "@);
    assert(views(items)[i] == items[i]@);
    law_join_contains_every_item(views(items), ", "@, i);
    lemma_contains_middle(open, joined, close);
    lemma_contains_transitive(open + joined + close, joined, items[i]@);
}

/// A shown function signature holds all its parameters, in order, separated by
/// `, ` between `(` and `)`, and, when it has type parameters, all of them between
/// `<` and `>`; so each parameter and each type parameter appears in it.
pub proof fn law_function_signature_shows_every_param(
    node: DocNode,
    indent: nat,
    has_overloads: bool,
    i: int,
    j: int,
)
    requires
        node.function_def is Some,
        !has_overloads || !node.function_def.unwrap().has_body,
    ensures
        ({
            let f = node.function_def.unwrap();
            let text = function_signature_text(node, indent, has_overloads);
            &&& contains_text(text, "("@ + join(views(f.params@), ", "@) + ")"@)
            &&& 0 <= i < f.params@.len() ==> contains_text(text, f.params@[i]@)
            &&& f.type_params@.len() > 0 ==> contains_text(
                text,
                "<"@ + join(views(f.type_params@), ", "@) + ">"@,
            )
            &&& 0 <= j < f.type_params@.len() ==> contains_text(text, f.type_params@[j]@)
        }),
{
    reveal(function_signature_text);
    let f = node.function_def.unwrap();
    let text = function_signature_text(node, indent, has_overloads);
    let head = indent_text(indent) + async_text(f.is_async) + "function"@ + generator_text(f.is_generator)
        + " "@ + node.name@;
    let angle = angle_list_text(f.type_params@);
    let params = "("@ + join(views(f.params@), ", "@) + ")"@;
    let tail = opt_text(": "@, f.return_type) + "\n"@;
    assert(text == (head + angle) + params + tail);
    lemma_contains_middle(head + angle, params, tail);
    if 0 <= i < f.params@.len() {
        lemma_bracketed_list_contains_item("("@, f.params@, ")"@, i);
        lemma_contains_transitive(text, params, f.params@[i]@);
    }
    if f.type_params@.len() > 0 {
        assert(text == head + angle + (params + tail));
        lemma_contains_middle(head, angle, params + tail);
        if 0 <= j < f.type_params@.len() {
            lemma_bracketed_list_contains_item("<"@, f.type_params@, ">"@, j);
            lemma_contains_transitive(text, angle, f.type_params@[j]@);
        }
    }
}

/// A class signature holds all the class's type parameters, in order, separated by
/// `, ` between `<` and `>`.
pub proof fn law_class_signature_shows_every_type_param(node: DocNode, indent: nat, j: int)
    requires
        node.class_def is Some,
        0 <= j < node.class_def.unwrap().type_params@.len(),
    ensures
        contains_text(
            class_signature_text(node, indent),
            "<"@ + join(views(node.class_def.unwrap().type_params@), ", "@) + ">"@,
        ),
        contains_text(class_signature_text(node, indent), node.class_def.unwrap().type_params@[j]@),
{
    reveal(class_signature_text);
    reveal(class_head_text);
    let c = node.class_def.unwrap();
    let text = class_signature_text(node, indent);
    let pre = each_line_text(c.decorators@, indent) + indent_text(indent)
        + crate::layout::abstract_text(c.is_abstract) + "class "@ + node.name@;
    let angle = "<"@ + join(views(c.type_params@), ", "@) + ">"@;
    let post = class_heritage_text(c);
    assert(text == pre + angle + post);
    lemma_contains_middle(pre, angle, post);
    lemma_bracketed_list_contains_item("<"@, c.type_params@, ">"@, j);
    lemma_contains_transitive(text, angle, c.type_params@[j]@);
}

/// A type alias signature holds all its type parameters, in order, separated by
/// `, ` between `<` and `>`.
pub proof fn law_type_alias_signature_shows_every_type_param(node: DocNode, indent: nat, j: int)
    requires
        node.type_alias_def is Some,
        0 <= j < node.type_alias_def.unwrap().type_params@.len(),
    ensures
        contains_text(
            type_alias_signature_text(node, indent),
            "<"@ + join(views(node.type_alias_def.unwrap().type_params@), ", "@) + ">"@,
        ),
        contains_text(type_alias_signature_text(node, indent), node.type_alias_def.unwrap().type_params@[j]@),
{
    reveal(type_alias_signature_text);
    let t = node.type_alias_def.unwrap();
    let text = type_alias_signature_text(node, indent);
    let pre = indent_text(indent) + "type "@ + node.name@;
    let angle = "<"@ + join(views(t.type_params@), ", "@) + ">"@;
    let post = " = "@ + t.ts_type@ + "\n"@;
    assert(text == pre + angle + post);
    lemma_contains_middle(pre, angle, post);
    lemma_bracketed_list_contains_item("<"@, t.type_params@, ">"@, j);
    lemma_contains_transitive(text, angle, t.type_params@[j]@);
}

/// An interface signature that extends other interfaces holds ` extends ` and all
/// of them, in order, separated by `, `.
pub proof fn law_interface_signature_shows_every_extended(node: DocNode, indent: nat, i: int)
    requires
        node.interface_def is Some,
        0 <= i < node.interface_def.unwrap().extends@.len(),
    ensures
        contains_text(
            interface_signature_text(node, indent),
            " extends "@ + join(views(node.interface_def.unwrap().extends@), ", "@),
        ),
        contains_text(interface_signature_text(node, indent), node.interface_def.unwrap().extends@[i]@),
{
    reveal(interface_signature_text);
    let d = node.interface_def.unwrap();
    let text = interface_signature_text(node, indent);
    let pre = indent_text(indent) + "interface "@ + node.name@ + angle_list_text(d.type_params@);
    let clause = " extends "@ + join(views(d.extends@), ", "@);
    assert(text == pre + clause + "\n"@);
    lemma_contains_middle(pre, clause, "\n"@);
    lemma_bracketed_list_contains_item(" extends "@, d.extends@, Seq::empty(), i);
    assert(clause + Seq::<char>::empty() =~= clause);
    lemma_contains_transitive(text, clause, d.extends@[i]@);
}

proof fn lemma_enum_members_contain(ms: Seq<EnumMemberDef>, i: int)
    requires
        0 <= i < ms.len(),
    ensures
        contains_text(enum_members_text(ms), enum_member_text(ms[i])),
    decreases ms.len(),
{
    if i == ms.len() - 1 {
        lemma_contains_self(enum_member_text(ms[i]));
        lemma_contains_right(enum_members_text(ms.drop_last()), enum_member_text(ms.last()), enum_member_text(ms[i]));
    } else {
        lemma_enum_members_contain(ms.drop_last(), i);
        assert(ms.drop_last()[i] == ms[i]);
        lemma_contains_left(enum_members_text(ms.drop_last()), enum_member_text(ms.last()), enum_member_text(ms[i]));
    }
}

/// Every member of an enum is shown on a line of its own one level in, followed at
/// once by its JSDoc two levels in.
pub proof fn law_enum_shows_every_member(node: DocNode, i: int)
    requires
        node.enum_def is Some,
        0 <= i < node.enum_def.unwrap().members@.len(),
    ensures
        ({
            let m = node.enum_def.unwrap().members@[i];
            contains_text(
                enum_members_body_text(node),
                indent_text(1) + m.name@ + "\n"@ + jsdoc_text(m.js_doc, 2),
            )
        }),
{
    reveal(enum_members_body_text);
    reveal(enum_member_text);
    let ms = node.enum_def.unwrap().members@;
    lemma_enum_members_contain(ms, i);
    lemma_contains_left(enum_members_text(ms), "\n"@, enum_member_text(ms[i]));
}

proof fn lemma_interface_members_contain(ms: Seq<InterfaceMemberDef>, i: int)
    requires
        0 <= i < ms.len(),
    ensures
        contains_text(interface_members_text(ms), interface_member_text(ms[i])),
    decreases ms.len(),
{
    if i == ms.len() - 1 {
        lemma_contains_self(interface_member_text(ms[i]));
        lemma_contains_right(
            interface_members_text(ms.drop_last()),
            interface_member_text(ms.last()),
            interface_member_text(ms[i]),
        );
    } else {
        lemma_interface_members_contain(ms.drop_last(), i);
        assert(ms.drop_last()[i] == ms[i]);
        lemma_contains_left(
            interface_members_text(ms.drop_last()),
            interface_member_text(ms.last()),
            interface_member_text(ms[i]),
        );
    }
}

/// Every property and every method of an interface is shown by its signature one
/// level in, followed at once by its JSDoc two levels in.
pub proof fn law_interface_shows_every_member(node: DocNode, i: int, j: int)
    requires
        node.interface_def is Some,
    ensures
        ({
            let d = node.interface_def.unwrap();
            &&& 0 <= i < d.properties@.len() ==> contains_text(
                interface_body_text(node),
                indent_text(1) + d.properties@[i].signature@ + "\n"@ + jsdoc_text(d.properties@[i].js_doc, 2),
            )
            &&& 0 <= j < d.methods@.len() ==> contains_text(
                interface_body_text(node),
                indent_text(1) + d.methods@[j].signature@ + "\n"@ + jsdoc_text(d.methods@[j].js_doc, 2),
            )
        }),
{
    reveal(interface_body_text);
    reveal(interface_member_text);
    let d = node.interface_def.unwrap();
    let props = interface_members_text(d.properties@);
    let methods = interface_members_text(d.methods@);
    let rest = each_line_text(d.index_signatures@, 1) + "\n"@;
    assert(interface_body_text(node) == props + methods + rest);
    if 0 <= i < d.properties@.len() {
        lemma_interface_members_contain(d.properties@, i);
        lemma_contains_left(props, methods + rest, interface_member_text(d.properties@[i]));
        assert(props + methods + rest == props + (methods + rest));
    }
    if 0 <= j < d.methods@.len() {
        lemma_interface_members_contain(d.methods@, j);
        lemma_contains_middle(props, methods, rest);
        lemma_contains_transitive(interface_body_text(node), methods, interface_member_text(d.methods@[j]));
    }
}

/// A `@tags` tag lists all its tags, in order, separated by `, `, after a space.
pub proof fn law_tags_tag_shows_every_tag(tags: Vec<String>, indent: nat, i: int)
    requires
        0 <= i < tags@.len(),
    ensures
        contains_text(tag_text(JsDocTag::Tags { tags }, indent), " "@ + join(views(tags@), ", "@) + "\n"@),
        contains_text(tag_text(JsDocTag::Tags { tags }, indent), tags@[i]@),
{
    reveal(tag_text);
    let text = tag_text(JsDocTag::Tags { tags }, indent);
    let piece = " "@ + join(views(tags@), ", "@) + "\n"@;
    let head = tag_head_text(indent, "tags"@);
    assert(text =~= head + piece + Seq::<char>::empty());
    lemma_contains_middle(head, piece, Seq::empty());
    lemma_bracketed_list_contains_item(" "@, tags@, "\n"@, i);
    lemma_contains_transitive(text, piece, tags@[i]@);
}

proof fn lemma_constructors_contain(xs: Seq<ClassConstructorDef>, ov: bool, i: int)
    requires
        0 <= i < xs.len(),
    ensures
        contains_text(constructors_text(xs, ov), constructor_text(xs[i], ov)),
    decreases xs.len(),
{
    if i == xs.len() - 1 {
        lemma_contains_self(constructor_text(xs[i], ov));
        lemma_contains_right(constructors_text(xs.drop_last(), ov), constructor_text(xs.last(), ov), constructor_text(xs[i], ov));
    } else {
        lemma_constructors_contain(xs.drop_last(), ov, i);
        assert(xs.drop_last()[i] == xs[i]);
        lemma_contains_left(constructors_text(xs.drop_last(), ov), constructor_text(xs.last(), ov), constructor_text(xs[i], ov));
    }
}

proof fn lemma_properties_contain(xs: Seq<ClassPropertyDef>, private: bool, i: int)
    requires
        0 <= i < xs.len(),
    ensures
        contains_text(properties_text(xs, private), property_text(xs[i], private)),
    decreases xs.len(),
{
    if i == xs.len() - 1 {
        lemma_contains_self(property_text(xs[i], private));
        lemma_contains_right(properties_text(xs.drop_last(), private), property_text(xs.last(), private), property_text(xs[i], private));
    } else {
        lemma_properties_contain(xs.drop_last(), private, i);
        assert(xs.drop_last()[i] == xs[i]);
        lemma_contains_left(properties_text(xs.drop_last(), private), property_text(xs.last(), private), property_text(xs[i], private));
    }
}

proof fn lemma_methods_contain(xs: Seq<ClassMethodDef>, all: Seq<ClassMethodDef>, private: bool, i: int)
    requires
        0 <= i < xs.len(),
    ensures
        contains_text(methods_text(xs, all, private), method_text(xs[i], all, private)),
    decreases xs.len(),
{
    if i == xs.len() - 1 {
        lemma_contains_self(method_text(xs[i], all, private));
        lemma_contains_right(methods_text(xs.drop_last(), all, private), method_text(xs.last(), all, private), method_text(xs[i], all, private));
    } else {
        lemma_methods_contain(xs.drop_last(), all, private, i);
        assert(xs.drop_last()[i] == xs[i]);
        lemma_contains_left(methods_text(xs.drop_last(), all, private), method_text(xs.last(), all, private), method_text(xs[i], all, private));
    }
}

proof fn lemma_tags_contain(xs: Seq<JsDocTag>, indent: nat, i: int)
    requires
        0 <= i < xs.len(),
    ensures
        contains_text(tags_text(xs, indent), tag_text(xs[i], indent)),
    decreases xs.len(),
{
    if i == xs.len() - 1 {
        lemma_contains_self(tag_text(xs[i], indent));
        lemma_contains_right(tags_text(xs.drop_last(), indent), tag_text(xs.last(), indent), tag_text(xs[i], indent));
    } else {
        lemma_tags_contain(xs.drop_last(), indent, i);
        assert(xs.drop_last()[i] == xs[i]);
        lemma_contains_left(tags_text(xs.drop_last(), indent), tag_text(xs.last(), indent), tag_text(xs[i], indent));
    }
}

proof fn lemma_lines_contain(xs: Seq<Seq<char>>, n: nat, i: int)
    requires
        0 <= i < xs.len(),
    ensures
        contains_text(lines_text(xs, n), indent_text(n) + xs[i] + "\n"@),
    decreases xs.len(),
{
    let piece = indent_text(n) + xs[i] + "\n"@;
    if i == xs.len() - 1 {
        assert(lines_text(xs, n) == lines_text(xs.drop_last(), n) + indent_text(n) + xs.last() + "\n"@);
        assert(lines_text(xs, n) == lines_text(xs.drop_last(), n) + piece);
        lemma_contains_self(piece);
        lemma_contains_right(lines_text(xs.drop_last(), n), piece, piece);
    } else {
        lemma_lines_contain(xs.drop_last(), n, i);
        assert(xs.drop_last()[i] == xs[i]);
        let last = indent_text(n) + xs.last() + "\n"@;
        assert(lines_text(xs, n) == lines_text(xs.drop_last(), n) + last);
        lemma_contains_left(lines_text(xs.drop_last(), n), last, piece);
    }
}

/// Every signature that is shown holds the node's name: after `class `, `enum `,
/// `interface `, `type `, `namespace `, after the variable's keyword and a space, or
/// after `function` (and `*` for a generator) and a space.
#[verifier::rlimit(40)]
pub proof fn law_signature_shows_name(node: DocNode, indent: nat, has_overloads: bool)
    requires
        node.has_signature_def(),
        node.kind != DocNodeKind::ModuleDoc,
        node.kind != DocNodeKind::Import,
        node.kind == DocNodeKind::Function ==> !has_overloads || !node.function_def.unwrap().has_body,
    ensures
        contains_text(signature_text(node, indent, has_overloads), node.name@),
        node.kind == DocNodeKind::Variable ==> contains_text(
            signature_text(node, indent, has_overloads),
            var_keyword(node.variable_def.unwrap().kind) + " "@ + node.name@,
        ),
{
    reveal(signature_text);
    let text = signature_text(node, indent, has_overloads);
    let name = node.name@;
    match node.kind {
        DocNodeKind::Function => {
            reveal(function_signature_text);
            let f = node.function_def.unwrap();
            let pre = indent_text(indent) + async_text(f.is_async) + "function"@ + generator_text(
                f.is_generator,
            ) + " "@;
            let post = angle_list_text(f.type_params@) + "("@ + join(views(f.params@), ", "@) + ")"@
                + opt_text(": "@, f.return_type) + "\n"@;
            assert(text =~= pre + name + post);
            lemma_contains_middle(pre, name, post);
        },
        DocNodeKind::Variable => {
            reveal(variable_signature_text);
            let v = node.variable_def.unwrap();
            let pre = indent_text(indent) + var_keyword(v.kind) + " "@;
            let post = opt_text(": "@, v.ts_type) + "\n"@;
            assert(text =~= pre + name + post);
            lemma_contains_middle(pre, name, post);
            let kw = var_keyword(v.kind) + " "@ + name;
            assert(text =~= indent_text(indent) + kw + post);
            lemma_contains_middle(indent_text(indent), kw, post);
        },
        DocNodeKind::Class => {
            reveal(class_signature_text);
            reveal(class_head_text);
            let c = node.class_def.unwrap();
            let pre = each_line_text(c.decorators@, indent) + indent_text(indent)
                + crate::layout::abstract_text(c.is_abstract) + "class "@;
            let post = angle_list_text(c.type_params@) + class_heritage_text(c);
            assert(text =~= pre + name + post);
            lemma_contains_middle(pre, name, post);
        },
        DocNodeKind::Enum => {
            reveal(enum_signature_text);
            let pre = indent_text(indent) + "enum "@;
            assert(text =~= pre + name + "\n"@);
            lemma_contains_middle(pre, name, "\n"@);
        },
        DocNodeKind::Interface => {
            reveal(interface_signature_text);
            let d = node.interface_def.unwrap();
            let pre = indent_text(indent) + "interface "@;
            let post = angle_list_text(d.type_params@) + list_clause_text(" extends "@, d.extends@) + "\n"@;
            assert(text =~= pre + name + post);
            lemma_contains_middle(pre, name, post);
        },
        DocNodeKind::TypeAlias => {
            reveal(type_alias_signature_text);
            let t = node.type_alias_def.unwrap();
            let pre = indent_text(indent) + "type "@;
            let post = angle_list_text(t.type_params@) + " = "@ + t.ts_type@ + "\n"@;
            assert(text =~= pre + name + post);
            lemma_contains_middle(pre, name, post);
        },
        DocNodeKind::Namespace => {
            reveal(namespace_signature_text);
            let pre = indent_text(indent) + "namespace "@;
            assert(text =~= pre + name + "\n"@);
            lemma_contains_middle(pre, name, "\n"@);
        },
        _ => {},
    }
}

/// A class that extends another shows ` extends ` and the extended class; a shown
/// function with a return type shows `: ` and the type; a variable with a type
/// shows `: ` and the type; a type alias shows ` = ` and the aliased type.
pub proof fn law_signatures_show_their_types(node: DocNode, indent: nat, has_overloads: bool)
    ensures
        node.class_def matches Some(c) && c.extends is Some ==> contains_text(
            class_signature_text(node, indent),
            " extends "@ + node.class_def.unwrap().extends.unwrap()@,
        ),
        node.function_def is Some && node.function_def.unwrap().return_type is Some && (!has_overloads
            || !node.function_def.unwrap().has_body) ==> contains_text(
            function_signature_text(node, indent, has_overloads),
            ": "@ + node.function_def.unwrap().return_type.unwrap()@,
        ),
        node.variable_def is Some && node.variable_def.unwrap().ts_type is Some ==> contains_text(
            variable_signature_text(node, indent),
            ": "@ + node.variable_def.unwrap().ts_type.unwrap()@,
        ),
        node.type_alias_def is Some ==> contains_text(
            type_alias_signature_text(node, indent),
            " = "@ + node.type_alias_def.unwrap().ts_type@,
        ),
{
    if node.class_def is Some && node.class_def.unwrap().extends is Some {
        reveal(class_signature_text);
        reveal(class_heritage_text);
        let c = node.class_def.unwrap();
        let piece = " extends "@ + c.extends.unwrap()@;
        let post = angle_list_text(c.super_type_params@) + list_clause_text(" implements "@, c.implements@)
            + "\n"@;
        assert(class_signature_text(node, indent) =~= class_head_text(node, indent) + piece + post);
        lemma_contains_middle(class_head_text(node, indent), piece, post);
    }
    if node.function_def is Some && node.function_def.unwrap().return_type is Some && (!has_overloads
        || !node.function_def.unwrap().has_body) {
        reveal(function_signature_text);
        let f = node.function_def.unwrap();
        let pre = indent_text(indent) + async_text(f.is_async) + "function"@ + generator_text(f.is_generator)
            + " "@ + node.name@ + angle_list_text(f.type_params@) + "("@ + join(views(f.params@), ", "@)
            + ")"@;
        let piece = ": "@ + f.return_type.unwrap()@;
        assert(function_signature_text(node, indent, has_overloads) =~= pre + piece + "\n"@);
        lemma_contains_middle(pre, piece, "\n"@);
    }
    if node.variable_def is Some && node.variable_def.unwrap().ts_type is Some {
        reveal(variable_signature_text);
        let v = node.variable_def.unwrap();
        let pre = indent_text(indent) + var_keyword(v.kind) + " "@ + node.name@;
        let piece = ": "@ + v.ts_type.unwrap()@;
        assert(variable_signature_text(node, indent) =~= pre + piece + "\n"@);
        lemma_contains_middle(pre, piece, "\n"@);
    }
    if node.type_alias_def is Some {
        reveal(type_alias_signature_text);
        let t = node.type_alias_def.unwrap();
        let pre = indent_text(indent) + "type "@ + node.name@ + angle_list_text(t.type_params@);
        let piece = " = "@ + t.ts_type@;
        assert(type_alias_signature_text(node, indent) =~= pre + piece + "\n"@);
        lemma_contains_middle(pre, piece, "\n"@);
    }
}

/// Every member of a class that is shown stands in the class's members: a
/// constructor (unless it is the implementation of overloaded constructors) by its
/// signature one level in and its JSDoc two levels in; a property that is shown
/// (public, or private ones asked for) after its decorators; a method that is
/// shown and is not the implementation of an overloaded name, after its
/// decorators.
pub proof fn law_class_shows_every_shown_member(node: DocNode, private: bool, i: int, j: int, k: int)
    requires
        node.class_def is Some,
    ensures
        ({
            let c = node.class_def.unwrap();
            let body = class_body_text(node, private);
            &&& 0 <= i < c.constructors@.len() && (c.constructors@.len() <= 1
                || !c.constructors@[i].has_body) ==> contains_text(
                body,
                indent_text(1) + c.constructors@[i].signature@ + "\n"@ + jsdoc_layout(
                    c.constructors@[i].js_doc,
                    2,
                ),
            )
            &&& 0 <= j < c.properties@.len() && member_visible(private, c.properties@[j].accessibility)
                ==> contains_text(
                body,
                each_line_text(c.properties@[j].decorators@, 1) + indent_text(1)
                    + c.properties@[j].signature@ + "\n"@ + jsdoc_layout(c.properties@[j].js_doc, 2),
            )
            &&& 0 <= k < c.methods@.len() && member_visible(private, c.methods@[k].accessibility) && (
            method_count(c.methods@, c.methods@[k].name@) <= 1 || !c.methods@[k].function_def.has_body)
                ==> contains_text(
                body,
                each_line_text(c.methods@[k].function_def.decorators@, 1) + indent_text(1)
                    + c.methods@[k].signature@ + "\n"@ + jsdoc_layout(c.methods@[k].js_doc, 2),
            )
        }),
{
    reveal(class_body_text);
    reveal(constructor_text);
    reveal(property_text);
    reveal(method_text);
    let c = node.class_def.unwrap();
    let ov = c.constructors@.len() > 1;
    let ctors = constructors_text(c.constructors@, ov);
    let props = properties_text(c.properties@, private);
    let index = each_line_text(c.index_signatures@, 1);
    let methods = methods_text(c.methods@, c.methods@, private);
    let body = class_body_text(node, private);
    assert(body == ctors + props + index + methods + "\n"@);
    if 0 <= i < c.constructors@.len() && (c.constructors@.len() <= 1 || !c.constructors@[i].has_body) {
        lemma_constructors_contain(c.constructors@, ov, i);
        assert(body == ctors + (props + index + methods + "\n"@));
        lemma_contains_left(ctors, props + index + methods + "\n"@, constructor_text(c.constructors@[i], ov));
    }
    if 0 <= j < c.properties@.len() && member_visible(private, c.properties@[j].accessibility) {
        lemma_properties_contain(c.properties@, private, j);
        assert(body == ctors + props + (index + methods + "\n"@));
        lemma_contains_middle(ctors, props, index + methods + "\n"@);
        lemma_contains_transitive(body, props, property_text(c.properties@[j], private));
    }
    if 0 <= k < c.methods@.len() && member_visible(private, c.methods@[k].accessibility) && (method_count(
        c.methods@,
        c.methods@[k].name@,
    ) <= 1 || !c.methods@[k].function_def.has_body) {
        lemma_methods_contain(c.methods@, c.methods@, private, k);
        lemma_contains_middle(ctors + props + index, methods, "\n"@);
        lemma_contains_transitive(body, methods, method_text(c.methods@[k], c.methods@, private));
    }
}

/// A JSDoc comment shows each line of its free text at its indentation, and each of
/// its tags.
pub proof fn law_jsdoc_shows_every_line_and_tag(js_doc: JsDoc, indent: nat, l: int, t: int)
    ensures
        js_doc.doc matches Some(d) && 0 <= l < text_lines(d@).len() ==> contains_text(
            jsdoc_layout(js_doc, indent),
            indent_text(indent) + text_lines(js_doc.doc.unwrap()@)[l] + "\n"@,
        ),
        0 <= t < js_doc.tags@.len() ==> contains_text(
            jsdoc_layout(js_doc, indent),
            tag_text(js_doc.tags@[t], indent),
        ),
{
    reveal(jsdoc_layout);
    let lines = match js_doc.doc {
        Some(d) => lines_text(text_lines(d@), indent),
        None => Seq::<char>::empty(),
    };
    let gap = if js_doc.tags@.len() > 0 { "\n"@ } else { Seq::<char>::empty() };
    let tags = tags_text(js_doc.tags@, indent);
    assert(jsdoc_layout(js_doc, indent) == lines + gap + tags);
    if js_doc.doc is Some && 0 <= l < text_lines(js_doc.doc.unwrap()@).len() {
        lemma_lines_contain(text_lines(js_doc.doc.unwrap()@), indent, l);
        assert(lines + gap + tags == lines + (gap + tags));
        lemma_contains_left(lines, gap + tags, indent_text(indent) + text_lines(js_doc.doc.unwrap()@)[l] + "\n"@);
    }
    if 0 <= t < js_doc.tags@.len() {
        lemma_tags_contain(js_doc.tags@, indent, t);
        lemma_contains_right(lines + gap, tags, tag_text(js_doc.tags@[t], indent));
    }
}

/// Kinds are listed in this order: module doc, functions, variables, classes,
/// enums, interfaces, type aliases, namespaces, imports.
pub proof fn law_kind_listing_order()
    ensures
        kind_rank(DocNodeKind::ModuleDoc) < kind_rank(DocNodeKind::Function),
        kind_rank(DocNodeKind::Function) < kind_rank(DocNodeKind::Variable),
        kind_rank(DocNodeKind::Variable) < kind_rank(DocNodeKind::Class),
        kind_rank(DocNodeKind::Class) < kind_rank(DocNodeKind::Enum),
        kind_rank(DocNodeKind::Enum) < kind_rank(DocNodeKind::Interface),
        kind_rank(DocNodeKind::Interface) < kind_rank(DocNodeKind::TypeAlias),
        kind_rank(DocNodeKind::TypeAlias) < kind_rank(DocNodeKind::Namespace),
        kind_rank(DocNodeKind::Namespace) < kind_rank(DocNodeKind::Import),
{
}

/// A variable's signature holds its keyword (`const`, `let` or `var`), a space and
/// its name.
pub proof fn law_variable_signature_shows_keyword(node: DocNode, indent: nat)
    requires
        node.variable_def is Some,
    ensures
        ({
            let text = variable_signature_text(node, indent);
            let name = node.name@;
            &&& node.variable_def.unwrap().kind == crate::node::VarDeclKind::Const ==> contains_text(
                text,
                "const"@ + " "@ + name,
            )
            &&& node.variable_def.unwrap().kind == crate::node::VarDeclKind::Let ==> contains_text(
                text,
                "let"@ + " "@ + name,
            )
            &&& node.variable_def.unwrap().kind == crate::node::VarDeclKind::Var ==> contains_text(
                text,
                "var"@ + " "@ + name,
            )
        }),
{
    reveal(variable_signature_text);
    let v = node.variable_def.unwrap();
    let piece = var_keyword(v.kind) + " "@ + node.name@;
    let post = opt_text(": "@, v.ts_type) + "\n"@;
    assert(variable_signature_text(node, indent) =~= indent_text(indent) + piece + post);
    lemma_contains_middle(indent_text(indent), piece, post);
}

/// The line of a tag starts with the indentation, `@` and the tag's name:
/// `callback`, `category`, `constructor`, `default`, `deprecated`, `enum`,
/// `example`, `extends`, `ignore`, `module`, `param`, `public`, `private`,
/// `property`, `protected`, `readonly`, `return`, `tags`, `template`, `this`,
/// `typedef`, `typeref`, or the name of an unsupported tag.
#[verifier::rlimit(60)]
pub proof fn law_tag_line_starts_with_its_name(tag: JsDocTag, indent: nat)
    ensures
        ({
            let name = match tag {
                JsDocTag::Callback { .. } => "callback"@,
                JsDocTag::Category { .. } => "category"@,
                JsDocTag::Constructor => "constructor"@,
                JsDocTag::Default { .. } => "default"@,
                JsDocTag::Deprecated { .. } => "deprecated"@,
                JsDocTag::Enum { .. } => "enum"@,
                JsDocTag::Example { .. } => "example"@,
                JsDocTag::Extends { .. } => "extends"@,
                JsDocTag::Ignore => "ignore"@,
                JsDocTag::Module => "module"@,
                JsDocTag::Param { .. } => "param"@,
                JsDocTag::Public => "public"@,
                JsDocTag::Private => "private"@,
                JsDocTag::Property { .. } => "property"@,
                JsDocTag::Protected => "protected"@,
                JsDocTag::ReadOnly => "readonly"@,
                JsDocTag::Return { .. } => "return"@,
                JsDocTag::Tags { .. } => "tags"@,
                JsDocTag::Template { .. } => "template"@,
                JsDocTag::This { .. } => "this"@,
                JsDocTag::TypeDef { .. } => "typedef"@,
                JsDocTag::TypeRef { .. } => "typeref"@,
                JsDocTag::Unsupported { value } => value@,
            };
            let head = indent_text(indent) + "@"@ + name;
            &&& head.len() <= tag_text(tag, indent).len()
            &&& tag_text(tag, indent).take(head.len() as int) == head
        }),
{
    reveal(tag_text);
    let text = tag_text(tag, indent);
    let head = tag_head_text(indent, match tag {
        JsDocTag::Callback { .. } => "callback"@,
        JsDocTag::Category { .. } => "category"@,
        JsDocTag::Constructor => "constructor"@,
        JsDocTag::Default { .. } => "default"@,
        JsDocTag::Deprecated { .. } => "deprecated"@,
        JsDocTag::Enum { .. } => "enum"@,
        JsDocTag::Example { .. } => "example"@,
        JsDocTag::Extends { .. } => "extends"@,
        JsDocTag::Ignore => "ignore"@,
        JsDocTag::Module => "module"@,
        JsDocTag::Param { .. } => "param"@,
        JsDocTag::Public => "public"@,
        JsDocTag::Private => "private"@,
        JsDocTag::Property { .. } => "property"@,
        JsDocTag::Protected => "protected"@,
        JsDocTag::ReadOnly => "readonly"@,
        JsDocTag::Return { .. } => "return"@,
        JsDocTag::Tags { .. } => "tags"@,
        JsDocTag::Template { .. } => "template"@,
        JsDocTag::This { .. } => "this"@,
        JsDocTag::TypeDef { .. } => "typedef"@,
        JsDocTag::TypeRef { .. } => "typeref"@,
        JsDocTag::Unsupported { value } => value@,
    });
    let rest = text.skip(head.len() as int);
    assert(text =~= head + rest);
    assert(text.take(head.len() as int) =~= head);
}

} // verus!
