use deno_doc_printer::doc_node_printer::{print_doc_node, print_doc_nodes_assoc};
use deno_doc_printer::node::{
    Accessibility, ClassConstructorDef, ClassDef, ClassMethodDef, ClassPropertyDef, DocNode,
    DocNodeKind, EnumDef, EnumMemberDef, FunctionDef, InterfaceDef, InterfaceMemberDef, JsDoc,
    JsDocTag, NamespaceDef, TypeAliasDef, VarDeclKind, VariableDef,
};

fn s(text: &str) -> String {
    text.to_string()
}

fn strings(items: &[&str]) -> Vec<String> {
    items.iter().map(|t| t.to_string()).collect()
}

fn no_doc() -> JsDoc {
    JsDoc { doc: None, tags: vec![] }
}

fn doc(text: &str) -> JsDoc {
    JsDoc { doc: Some(s(text)), tags: vec![] }
}

fn bare(kind: DocNodeKind, name: &str) -> DocNode {
    DocNode {
        kind,
        name: s(name),
        js_doc: no_doc(),
        function_def: None,
        variable_def: None,
        enum_def: None,
        class_def: None,
        type_alias_def: None,
        namespace_def: None,
        interface_def: None,
    }
}

fn function_def(params: &[&str], has_body: bool) -> FunctionDef {
    FunctionDef {
        params: strings(params),
        return_type: None,
        has_body,
        is_async: false,
        is_generator: false,
        type_params: vec![],
        decorators: vec![],
    }
}

fn function(name: &str, has_body: bool) -> DocNode {
    let mut node = bare(DocNodeKind::Function, name);
    node.function_def = Some(function_def(&[], has_body));
    node
}

fn variable(name: &str, kind: VarDeclKind, ts_type: Option<&str>) -> DocNode {
    let mut node = bare(DocNodeKind::Variable, name);
    node.variable_def = Some(VariableDef { ts_type: ts_type.map(s), kind });
    node
}

fn module_doc_with_tags(tags: Vec<JsDocTag>) -> DocNode {
    let mut node = bare(DocNodeKind::ModuleDoc, "");
    node.js_doc = JsDoc { doc: None, tags };
    node
}

fn method(name: &str, signature: &str, accessibility: Option<Accessibility>, has_body: bool) -> ClassMethodDef {
    ClassMethodDef {
        signature: s(signature),
        name: s(name),
        accessibility,
        function_def: function_def(&[], has_body),
        js_doc: no_doc(),
    }
}

fn point_class() -> DocNode {
    let mut node = bare(DocNodeKind::Class, "Point");
    node.js_doc = doc("A point.");
    node.class_def = Some(ClassDef {
        is_abstract: true,
        constructors: vec![ClassConstructorDef {
            signature: s("constructor(x: number)"),
            has_body: true,
            js_doc: no_doc(),
        }],
        properties: vec![
            ClassPropertyDef {
                signature: s("x: number"),
                accessibility: None,
                decorators: strings(&["@observable"]),
                js_doc: doc("The x."),
            },
            ClassPropertyDef {
                signature: s("private secret: string"),
                accessibility: Some(Accessibility::Private),
                decorators: vec![],
                js_doc: no_doc(),
            },
        ],
        index_signatures: strings(&["[key: string]: unknown"]),
        methods: vec![
            method("get", "get(): number", Some(Accessibility::Public), true),
            method("hidden", "hidden(): void", Some(Accessibility::Private), true),
        ],
        extends: Some(s("Base")),
        implements: strings(&["Iface"]),
        type_params: strings(&["T"]),
        super_type_params: strings(&["T"]),
        decorators: strings(&["@sealed"]),
    });
    node
}

#[test]
fn function_with_jsdoc() {
    let mut node = bare(DocNodeKind::Function, "add");
    node.js_doc = JsDoc {
        doc: Some(s("Adds two numbers.\nReturns the sum.")),
        tags: vec![
            JsDocTag::Param {
                name: s("a"),
                type_ref: Some(s("number")),
                optional: false,
                default: None,
                doc: Some(s("first")),
            },
            JsDocTag::Return { type_ref: Some(s("number")), doc: None },
        ],
    };
    let mut def = function_def(&["a: number", "b: number"], true);
    def.return_type = Some(s("number"));
    node.function_def = Some(def);
    assert_eq!(
        print_doc_node(&node, false, false),
        "function add(a: number, b: number): number\n  Adds two numbers.\n  Returns the sum.\n\n  @param {number} a\n      first\n\n  @return {number}\n\n"
    );
}

#[test]
fn async_generator_function() {
    let mut node = bare(DocNodeKind::Function, "gen");
    let mut def = function_def(&[], false);
    def.is_async = true;
    def.is_generator = true;
    def.type_params = strings(&["T", "U"]);
    node.function_def = Some(def);
    assert_eq!(print_doc_node(&node, false, false), "async function* gen<T, U>()\n\n");
}

#[test]
fn overloaded_implementation_shows_only_its_jsdoc() {
    let mut node = function("f", true);
    node.js_doc = doc("Impl.");
    assert_eq!(print_doc_node(&node, false, true), "  Impl.\n\n");
    assert_eq!(print_doc_node(&node, false, false), "function f()\n  Impl.\n\n");
    let declaration = function("f", false);
    assert_eq!(print_doc_node(&declaration, false, true), "function f()\n\n");
}

#[test]
fn class_without_private_members() {
    assert_eq!(
        print_doc_node(&point_class(), false, false),
        "@sealed\nabstract class Point<T> extends Base<T> implements Iface\n  A point.\n\n  constructor(x: number)\n  @observable\n  x: number\n    The x.\n  [key: string]: unknown\n  get(): number\n\n"
    );
}

#[test]
fn class_with_private_members() {
    assert_eq!(
        print_doc_node(&point_class(), true, false),
        "@sealed\nabstract class Point<T> extends Base<T> implements Iface\n  A point.\n\n  constructor(x: number)\n  @observable\n  x: number\n    The x.\n  private secret: string\n  [key: string]: unknown\n  get(): number\n  hidden(): void\n\n"
    );
}

#[test]
fn class_overloads_hide_implementations() {
    let mut node = bare(DocNodeKind::Class, "C");
    node.class_def = Some(ClassDef {
        is_abstract: false,
        constructors: vec![
            ClassConstructorDef { signature: s("constructor(a: string)"), has_body: false, js_doc: no_doc() },
            ClassConstructorDef { signature: s("constructor(a: number)"), has_body: false, js_doc: no_doc() },
            ClassConstructorDef { signature: s("constructor(a: any)"), has_body: true, js_doc: no_doc() },
        ],
        properties: vec![],
        index_signatures: vec![],
        methods: vec![
            method("f", "f(a: string): void", None, false),
            method("f", "f(a: any): void", None, true),
            method("g", "g(): void", None, true),
        ],
        extends: None,
        implements: vec![],
        type_params: vec![],
        super_type_params: vec![],
        decorators: vec![],
    });
    assert_eq!(
        print_doc_node(&node, false, false),
        "class C\n\n  constructor(a: string)\n  constructor(a: number)\n  f(a: string): void\n  g(): void\n\n"
    );
}

#[test]
fn enum_members() {
    let mut node = bare(DocNodeKind::Enum, "Color");
    node.enum_def = Some(EnumDef {
        members: vec![
            EnumMemberDef { name: s("Red"), js_doc: doc("The red one.") },
            EnumMemberDef { name: s("Green"), js_doc: no_doc() },
        ],
    });
    assert_eq!(print_doc_node(&node, false, false), "enum Color\n\n  Red\n    The red one.\n  Green\n\n");
}

#[test]
fn interface_members() {
    let mut node = bare(DocNodeKind::Interface, "Shape");
    node.interface_def = Some(InterfaceDef {
        extends: strings(&["A", "B"]),
        properties: vec![InterfaceMemberDef { signature: s("area: number"), js_doc: doc("In m2.") }],
        methods: vec![InterfaceMemberDef { signature: s("draw(): void"), js_doc: no_doc() }],
        index_signatures: strings(&["[k: string]: T"]),
        type_params: strings(&["T"]),
    });
    assert_eq!(
        print_doc_node(&node, false, false),
        "interface Shape<T> extends A, B\n\n  area: number\n    In m2.\n  draw(): void\n  [k: string]: T\n\n"
    );
}

#[test]
fn type_alias_and_variables() {
    let mut alias = bare(DocNodeKind::TypeAlias, "Id");
    alias.type_alias_def = Some(TypeAliasDef { ts_type: s("string | T"), type_params: strings(&["T"]) });
    assert_eq!(print_doc_node(&alias, false, false), "type Id<T> = string | T\n\n");
    let constant = variable("VERSION", VarDeclKind::Const, Some("string"));
    assert_eq!(print_doc_node(&constant, false, false), "const VERSION: string\n\n");
    let mutable = variable("x", VarDeclKind::Let, None);
    assert_eq!(print_doc_node(&mutable, false, false), "let x\n\n");
    let old_style = variable("y", VarDeclKind::Var, Some("number"));
    assert_eq!(print_doc_node(&old_style, false, false), "var y: number\n\n");
}

#[test]
fn module_doc_and_import() {
    let mut module = bare(DocNodeKind::ModuleDoc, "");
    module.js_doc = doc("Module docs.");
    assert_eq!(print_doc_node(&module, false, false), "  Module docs.\n\n");
    let import = bare(DocNodeKind::Import, "x");
    assert_eq!(print_doc_node(&import, false, false), "\n");
}

#[test]
fn namespace_elements() {
    let mut node = bare(DocNodeKind::Namespace, "ns");
    let mut inner = bare(DocNodeKind::Namespace, "inner");
    inner.js_doc = doc("Nested.");
    node.namespace_def = Some(NamespaceDef {
        elements: vec![
            function("f", true),
            function("f", false),
            variable("v", VarDeclKind::Const, None),
            inner,
        ],
    });
    assert_eq!(
        print_doc_node(&node, false, false),
        "namespace ns\n\n  function f()\n  const v\n  namespace inner\n    Nested.\n\n"
    );
}

#[test]
fn tags_with_a_name_or_a_type() {
    let node = module_doc_with_tags(vec![
        JsDocTag::Callback { name: s("cb"), doc: Some(s("called")) },
        JsDocTag::Default { value: s("1"), doc: None },
        JsDocTag::Enum { type_ref: s("number"), doc: None },
        JsDocTag::Extends { type_ref: s("Base"), doc: None },
        JsDocTag::Property { name: s("p"), type_ref: s("number"), doc: None },
        JsDocTag::Template { name: s("T"), doc: None },
        JsDocTag::This { type_ref: s("Window"), doc: None },
        JsDocTag::TypeDef { name: s("Id"), type_ref: s("string"), doc: None },
        JsDocTag::TypeRef { type_ref: s("Foo"), doc: None },
    ]);
    assert_eq!(
        print_doc_node(&node, false, false),
        "\n  @callback cb\n      called\n\n  @default {1}\n  @enum {number}\n  @extends {Base}\n  @property {number} p\n  @template T\n  @this {Window}\n  @typedef {string} Id\n  @typeref {Foo}\n\n"
    );
}

#[test]
fn tags_without_arguments() {
    let node = module_doc_with_tags(vec![
        JsDocTag::Category { doc: None },
        JsDocTag::Constructor,
        JsDocTag::Deprecated { doc: Some(s("old")) },
        JsDocTag::Example { doc: Some(s("a()\nb()")) },
        JsDocTag::Ignore,
        JsDocTag::Module,
        JsDocTag::Public,
        JsDocTag::Private,
        JsDocTag::Protected,
        JsDocTag::ReadOnly,
        JsDocTag::Unsupported { value: s("custom") },
    ]);
    assert_eq!(
        print_doc_node(&node, false, false),
        "\n  @category\n  @constructor\n  @deprecated\n      old\n\n  @example\n      a()\n      b()\n\n  @ignore\n  @module\n  @public\n  @private\n  @protected\n  @readonly\n  @custom\n\n"
    );
}

#[test]
fn param_return_and_tags_tags() {
    let node = module_doc_with_tags(vec![
        JsDocTag::Param { name: s("p"), type_ref: None, optional: true, default: Some(s("3")), doc: None },
        JsDocTag::Param {
            name: s("q"),
            type_ref: Some(s("string")),
            optional: false,
            default: Some(s("\"x\"")),
            doc: None,
        },
        JsDocTag::Param { name: s("r"), type_ref: None, optional: false, default: None, doc: None },
        JsDocTag::Return { type_ref: None, doc: Some(s("nothing")) },
        JsDocTag::Tags { tags: strings(&["a", "b"]) },
        JsDocTag::Tags { tags: vec![] },
    ]);
    assert_eq!(
        print_doc_node(&node, false, false),
        "\n  @param [?] p\n  @param {string} [\"x\"] q\n  @param r\n  @return\n      nothing\n\n  @tags a, b\n  @tags \n\n"
    );
}

#[test]
fn doc_lines_follow_str_lines() {
    let mut node = bare(DocNodeKind::ModuleDoc, "");
    node.js_doc = doc("a\r\nb\n\nc\n");
    assert_eq!(print_doc_node(&node, false, false), "  a\n  b\n  \n  c\n\n");
    node.js_doc = doc("x\r");
    assert_eq!(print_doc_node(&node, false, false), "  x\r\n\n");
    node.js_doc = doc("");
    assert_eq!(print_doc_node(&node, false, false), "\n");
    node.js_doc = doc("\n");
    assert_eq!(print_doc_node(&node, false, false), "  \n\n");
}

#[test]
fn listing_orders_by_kind_then_name() {
    let nodes = vec![
        bare(DocNodeKind::Import, "i"),
        {
            let mut class = bare(DocNodeKind::Class, "B");
            class.class_def = point_class().class_def;
            class
        },
        function("beta", false),
        variable("z", VarDeclKind::Const, None),
        function("alpha", false),
        function("Alpha", false),
        {
            let mut ns = bare(DocNodeKind::Namespace, "n");
            ns.namespace_def = Some(NamespaceDef { elements: vec![] });
            ns
        },
        bare(DocNodeKind::ModuleDoc, ""),
    ];
    let listed = print_doc_nodes_assoc(nodes, false);
    let names: Vec<&str> = listed.iter().map(|(n, _)| n.name.as_str()).collect();
    assert_eq!(names, vec!["", "Alpha", "alpha", "beta", "z", "B", "n", "i"]);
    assert_eq!(listed[1].1, "function Alpha()\n\n");
    assert_eq!(listed[4].1, "const z\n\n");
    assert_eq!(listed[6].1, "namespace n\n\n\n");
    assert_eq!(listed[7].1, "\n");
}

#[test]
fn listing_counts_overloads_over_the_whole_list() {
    let mut implementation = function("a", true);
    implementation.js_doc = doc("impl");
    let nodes = vec![function("b", true), implementation, function("a", false)];
    let listed = print_doc_nodes_assoc(nodes, false);
    assert_eq!(listed.len(), 3);
    assert_eq!(listed[0].0.name, "a");
    assert_eq!(listed[1].0.name, "a");
    assert_eq!(listed[2].0.name, "b");
    let mut texts: Vec<&str> = vec![listed[0].1.as_str(), listed[1].1.as_str()];
    texts.sort();
    assert_eq!(texts, vec!["  impl\n\n", "function a()\n\n"]);
    assert_eq!(listed[2].1, "function b()\n\n");
}

#[test]
fn listing_orders_names_by_code_point() {
    let nodes = vec![function("\u{e9}t\u{e9}", false), function("zoo", false), function("za", false)];
    let listed = print_doc_nodes_assoc(nodes, true);
    let names: Vec<&str> = listed.iter().map(|(n, _)| n.name.as_str()).collect();
    assert_eq!(names, vec!["za", "zoo", "\u{e9}t\u{e9}"]);
}

#[test]
fn listing_of_nothing_is_empty() {
    assert!(print_doc_nodes_assoc(vec![], false).is_empty());
}

#[test]
fn printable_nodes_are_recognised() {
    assert!(function("f", true).can_print());
    assert!(!bare(DocNodeKind::Function, "f").can_print());
    assert!(!bare(DocNodeKind::Enum, "E").can_print());
    assert!(bare(DocNodeKind::Import, "i").can_print());
    let mut ns = bare(DocNodeKind::Namespace, "n");
    assert!(!ns.can_print());
    ns.namespace_def = Some(NamespaceDef { elements: vec![bare(DocNodeKind::Class, "C")] });
    assert!(!ns.can_print());
    ns.namespace_def = Some(NamespaceDef { elements: vec![bare(DocNodeKind::Enum, "E")] });
    assert!(ns.can_print());
}

#[test]
fn private_flag_changes_nothing_without_private_members() {
    let mut class = point_class();
    if let Some(def) = class.class_def.as_mut() {
        def.properties.retain(|p| p.accessibility != Some(Accessibility::Private));
        def.methods.retain(|m| m.accessibility != Some(Accessibility::Private));
    }
    assert_eq!(print_doc_node(&class, true, false), print_doc_node(&class, false, false));
    let constant = variable("VERSION", VarDeclKind::Const, Some("string"));
    assert_eq!(print_doc_node(&constant, true, false), print_doc_node(&constant, false, false));
}

#[test]
fn overload_flag_changes_only_implementations() {
    let class = point_class();
    assert_eq!(print_doc_node(&class, false, true), print_doc_node(&class, false, false));
    let declaration = function("f", false);
    assert_eq!(print_doc_node(&declaration, false, true), print_doc_node(&declaration, false, false));
    let mut implementation = function("f", true);
    implementation.js_doc = doc("Body.");
    assert_eq!(print_doc_node(&implementation, false, true), "  Body.\n\n");
}

#[test]
fn every_text_ends_with_a_line_feed() {
    let nodes = vec![
        point_class(),
        function("f", true),
        bare(DocNodeKind::Import, "i"),
        bare(DocNodeKind::ModuleDoc, ""),
        variable("v", VarDeclKind::Let, None),
    ];
    for node in &nodes {
        for private in [false, true] {
            for overloads in [false, true] {
                let text = print_doc_node(node, private, overloads);
                assert!(text.ends_with('\n'));
            }
        }
    }
}

#[test]
fn listing_does_not_depend_on_input_order() {
    let make = || {
        vec![
            variable("b", VarDeclKind::Var, None),
            function("a", false),
            function("a", true),
            variable("a", VarDeclKind::Var, None),
            bare(DocNodeKind::Import, "x"),
        ]
    };
    let forward = print_doc_nodes_assoc(make(), false);
    let mut reversed_input = make();
    reversed_input.reverse();
    let backward = print_doc_nodes_assoc(reversed_input, false);
    let keys = |listed: &Vec<(DocNode, String)>| -> Vec<(DocNodeKind, String)> {
        listed.iter().map(|(n, _)| (n.kind, n.name.clone())).collect()
    };
    assert_eq!(keys(&forward), keys(&backward));
    assert_eq!(
        keys(&forward),
        vec![
            (DocNodeKind::Function, s("a")),
            (DocNodeKind::Function, s("a")),
            (DocNodeKind::Variable, s("a")),
            (DocNodeKind::Variable, s("b")),
            (DocNodeKind::Import, s("x")),
        ]
    );
    let mut forward_texts: Vec<String> = forward.iter().map(|(_, t)| t.clone()).collect();
    let mut backward_texts: Vec<String> = backward.iter().map(|(_, t)| t.clone()).collect();
    forward_texts.sort();
    backward_texts.sort();
    assert_eq!(forward_texts, backward_texts);
    assert!(forward_texts.contains(&s("\n")));
    assert!(forward_texts.contains(&s("function a()\n\n")));
}

#[test]
fn tag_doc_lines_follow_the_tag_line() {
    let with_doc = module_doc_with_tags(vec![JsDocTag::Enum { type_ref: s("number"), doc: Some(s("one\ntwo")) }]);
    let without_doc = module_doc_with_tags(vec![JsDocTag::Enum { type_ref: s("number"), doc: None }]);
    let a = print_doc_node(&with_doc, false, false);
    let b = print_doc_node(&without_doc, false, false);
    assert_eq!(b, "\n  @enum {number}\n\n");
    assert_eq!(a, "\n  @enum {number}\n      one\n      two\n\n\n");
}

#[test]
fn listing_ranks_every_kind_apart() {
    let nodes = vec![
        bare(DocNodeKind::Import, "k"),
        {
            let mut ns = bare(DocNodeKind::Namespace, "k");
            ns.namespace_def = Some(NamespaceDef { elements: vec![] });
            ns
        },
        {
            let mut alias = bare(DocNodeKind::TypeAlias, "k");
            alias.type_alias_def = Some(TypeAliasDef { ts_type: s("string"), type_params: vec![] });
            alias
        },
        {
            let mut iface = bare(DocNodeKind::Interface, "k");
            iface.interface_def = Some(InterfaceDef {
                extends: vec![],
                properties: vec![],
                methods: vec![],
                index_signatures: vec![],
                type_params: vec![],
            });
            iface
        },
        {
            let mut e = bare(DocNodeKind::Enum, "k");
            e.enum_def = Some(EnumDef { members: vec![] });
            e
        },
        {
            let mut class = bare(DocNodeKind::Class, "k");
            class.class_def = point_class().class_def;
            class
        },
        variable("k", VarDeclKind::Var, None),
        function("k", false),
        bare(DocNodeKind::ModuleDoc, "k"),
    ];
    let listed = print_doc_nodes_assoc(nodes, false);
    let kinds: Vec<DocNodeKind> = listed.iter().map(|(n, _)| n.kind).collect();
    assert_eq!(
        kinds,
        vec![
            DocNodeKind::ModuleDoc,
            DocNodeKind::Function,
            DocNodeKind::Variable,
            DocNodeKind::Class,
            DocNodeKind::Enum,
            DocNodeKind::Interface,
            DocNodeKind::TypeAlias,
            DocNodeKind::Namespace,
            DocNodeKind::Import,
        ]
    );
}
