use i18n_scanner::analyzer::visit::import_sources;
use i18n_scanner::analyzer::walker::Walker;
use i18n_scanner::analyzer::{Action, Analyzer, ScanError};
use i18n_scanner::collector::{Collector, SourceFile};
use i18n_scanner::i18n_packages::{package_specifiers, I18nPackage, Member};
use i18n_scanner::i18n_types::{I18nMember, I18nType};
use i18n_scanner::node::Node;
use i18n_scanner::node_store::NodeStore;
use i18n_scanner::pattern::compile_externals;
use i18n_scanner::prepare;
use i18n_scanner::resolver::Resolution;
use i18n_scanner::scan::{scan_files, LoadedFile};
use i18n_scanner::syntax::{NodeKind, Reference, Symbol, SyntaxNode, SyntaxTree};
use i18n_scanner::Payload;

// ---------------------------------------------------------------------------
// A small way to write down the tree of a module.

#[derive(Clone)]
enum Spec {
    Named(&'static str, &'static str),
    Default(&'static str),
    Namespace(&'static str),
}

#[derive(Clone)]
enum T {
    Str(&'static str),
    Tpl(Vec<&'static str>, Vec<T>),
    Id(&'static str),
    Add(Box<T>, Box<T>),
    Call(Box<T>, Vec<T>),
    Member(Box<T>, &'static str),
    Arrow(Vec<T>, Vec<T>, bool),
    Func(Option<&'static str>, Vec<T>, Vec<T>, bool),
    Array(Vec<T>),
    Object(Vec<(&'static str, T)>),
    Jsx(&'static str, Vec<(&'static str, Option<T>)>, Vec<T>),
    JsxExpr(Option<Box<T>>),
    Fragment(Vec<T>),
    ExprStmt(Box<T>),
    Return(Option<Box<T>>),
    Const(T2),
    Bind(&'static str),
    ObjPat(Vec<(&'static str, T)>),
    ArrPat(Vec<T>),
    Import(&'static str, Option<Vec<Spec>>),
    ImportCall(Box<T>),
    ExportNamed(Vec<(&'static str, &'static str)>, Option<&'static str>, Option<Box<T>>),
    ExportDefault(Box<T>),
    ExportAll(&'static str),
}

#[derive(Clone)]
struct T2(Vec<(T, Option<T>)>);

fn id(name: &'static str) -> T {
    T::Id(name)
}

fn s(text: &'static str) -> T {
    T::Str(text)
}

fn call(callee: T, arguments: Vec<T>) -> T {
    T::Call(Box::new(callee), arguments)
}

fn stmt(expression: T) -> T {
    T::ExprStmt(Box::new(expression))
}

fn constant(target: T, init: T) -> T {
    T::Const(T2(vec![(target, Some(init))]))
}

fn import(source: &'static str, names: Vec<&'static str>) -> T {
    T::Import(source, Some(names.into_iter().map(|n| Spec::Named(n, n)).collect()))
}

struct Builder {
    nodes: Vec<SyntaxNode>,
    references: Vec<Reference>,
    symbols: Vec<Symbol>,
    symbol_names: Vec<String>,
    reference_names: Vec<String>,
}

impl Builder {
    fn reserve(&mut self, parent: Option<usize>) -> usize {
        self.nodes.push(SyntaxNode { kind: NodeKind::Other { children: vec![] }, parent });
        self.nodes.len() - 1
    }

    fn bind(&mut self, name: &str, parent: usize, declaration: usize) -> usize {
        let node = self.reserve(Some(parent));
        self.symbols.push(Symbol { declaration, references: vec![] });
        self.symbol_names.push(name.to_string());
        self.nodes[node].kind =
            NodeKind::BindingIdentifier { name: name.to_string(), symbol: self.symbols.len() - 1 };
        node
    }

    fn pattern(&mut self, t: &T, parent: usize, declaration: usize) -> usize {
        match t {
            T::Bind(name) => self.bind(name, parent, declaration),
            T::ObjPat(properties) => {
                let node = self.reserve(Some(parent));
                let mut list = vec![];
                for (key, value) in properties {
                    let property = self.reserve(Some(node));
                    let value = self.pattern(value, property, declaration);
                    self.nodes[property].kind =
                        NodeKind::BindingProperty { key: Some(key.to_string()), value };
                    list.push(property);
                }
                self.nodes[node].kind = NodeKind::ObjectPattern { properties: list };
                node
            }
            T::ArrPat(elements) => {
                let node = self.reserve(Some(parent));
                let list = elements.iter().map(|e| self.pattern(e, node, declaration)).collect();
                self.nodes[node].kind = NodeKind::ArrayPattern { elements: list };
                node
            }
            _ => panic!("not a pattern"),
        }
    }

    fn list(&mut self, items: &[T], parent: usize) -> Vec<usize> {
        items.iter().map(|item| self.emit(item, Some(parent))).collect()
    }

    fn arguments(&mut self, items: &[T], parent: usize) -> Vec<usize> {
        let mut list = vec![];
        for item in items {
            let argument = self.reserve(Some(parent));
            let value = self.emit(item, Some(argument));
            self.nodes[argument].kind = NodeKind::Argument { value, spread: false };
            list.push(argument);
        }
        list
    }

    fn emit(&mut self, t: &T, parent: Option<usize>) -> usize {
        let node = self.reserve(parent);
        let kind = match t {
            T::Str(text) => NodeKind::StringLiteral { value: text.to_string() },
            T::Tpl(quasis, expressions) => NodeKind::TemplateLiteral {
                quasis: quasis.iter().map(|q| q.to_string()).collect(),
                expressions: self.list(expressions, node),
            },
            T::Id(name) => {
                self.references.push(Reference { node, symbol: None });
                self.reference_names.push(name.to_string());
                NodeKind::Identifier { name: name.to_string(), reference: self.references.len() - 1 }
            }
            T::Add(left, right) => {
                let left = self.emit(left, Some(node));
                let right = self.emit(right, Some(node));
                NodeKind::Binary { addition: true, left, right }
            }
            T::Call(callee, arguments) => {
                let callee = self.emit(callee, Some(node));
                let arguments = self.arguments(arguments, node);
                NodeKind::Call { callee, arguments }
            }
            T::Member(object, property) => {
                let object = self.emit(object, Some(node));
                NodeKind::Member { object, property: Some(property.to_string()) }
            }
            T::Arrow(params, body, expression) => {
                let mut list = vec![];
                for param in params {
                    let at = self.nodes.len();
                    list.push(self.pattern(param, node, at));
                }
                let body = self.list(body, node);
                NodeKind::Arrow { params: list, body, expression: *expression }
            }
            T::Func(name, params, body, expression) => {
                let name = name.map(|n| self.bind(n, node, node));
                let mut list = vec![];
                for param in params {
                    let at = self.nodes.len();
                    list.push(self.pattern(param, node, at));
                }
                let body = self.list(body, node);
                NodeKind::Function { name, params: list, body: Some(body), expression: *expression }
            }
            T::Array(elements) => NodeKind::Array { elements: self.list(elements, node) },
            T::Object(properties) => {
                let mut list = vec![];
                for (key, value) in properties {
                    let property = self.reserve(Some(node));
                    let value = self.emit(value, Some(property));
                    self.nodes[property].kind =
                        NodeKind::Property { key: Some(key.to_string()), value };
                    list.push(property);
                }
                NodeKind::Object { properties: list }
            }
            T::Jsx(tag, attributes, children) => {
                let opening = self.reserve(Some(node));
                let name = self.emit(&T::Id(tag), Some(opening));
                let mut list = vec![];
                for (key, value) in attributes {
                    let attribute = self.reserve(Some(opening));
                    let value = value.as_ref().map(|v| self.emit(v, Some(attribute)));
                    self.nodes[attribute].kind =
                        NodeKind::JsxAttribute { name: Some(key.to_string()), value };
                    list.push(attribute);
                }
                self.nodes[opening].kind =
                    NodeKind::JsxOpeningElement { name: Some(name), attributes: list };
                NodeKind::JsxElement { opening, children: self.list(children, node) }
            }
            T::JsxExpr(expression) => NodeKind::JsxExpressionContainer {
                expression: expression.as_ref().map(|e| self.emit(e, Some(node))),
            },
            T::Fragment(children) => NodeKind::JsxFragment { children: self.list(children, node) },
            T::ExprStmt(expression) => {
                NodeKind::ExpressionStatement { expression: self.emit(expression, Some(node)) }
            }
            T::Return(argument) => {
                NodeKind::Return { argument: argument.as_ref().map(|a| self.emit(a, Some(node))) }
            }
            T::Const(T2(declarators)) => {
                let mut list = vec![];
                for (target, init) in declarators {
                    let declarator = self.reserve(Some(node));
                    let target = self.pattern(target, declarator, declarator);
                    let init = init.as_ref().map(|i| self.emit(i, Some(declarator)));
                    self.nodes[declarator].kind = NodeKind::VariableDeclarator { id: target, init };
                    list.push(declarator);
                }
                NodeKind::VariableDeclaration { declarations: list }
            }
            T::Bind(_) | T::ObjPat(_) | T::ArrPat(_) => panic!("a pattern outside a binding"),
            T::Import(source, specifiers) => {
                let specifiers = specifiers.as_ref().map(|specs| {
                    let mut list = vec![];
                    for spec in specs {
                        let specifier = self.reserve(Some(node));
                        self.nodes[specifier].kind = match spec {
                            Spec::Named(imported, local) => NodeKind::ImportSpecifier {
                                imported: imported.to_string(),
                                local: self.bind(local, specifier, specifier),
                            },
                            Spec::Default(local) => NodeKind::ImportDefaultSpecifier {
                                local: self.bind(local, specifier, specifier),
                            },
                            Spec::Namespace(local) => NodeKind::ImportNamespaceSpecifier {
                                local: self.bind(local, specifier, specifier),
                            },
                        };
                        list.push(specifier);
                    }
                    list
                });
                NodeKind::ImportDeclaration { source: source.to_string(), specifiers }
            }
            T::ImportCall(source) => {
                NodeKind::ImportExpression { source: self.emit(source, Some(node)) }
            }
            T::ExportNamed(specifiers, source, declaration) => {
                let mut list = vec![];
                for (local, exported) in specifiers {
                    let specifier = self.reserve(Some(node));
                    let read = if source.is_none() {
                        Some(self.emit(&T::Id(local), Some(specifier)))
                    } else {
                        None
                    };
                    self.nodes[specifier].kind = NodeKind::ExportSpecifier {
                        local: read,
                        local_name: local.to_string(),
                        exported: exported.to_string(),
                    };
                    list.push(specifier);
                }
                let declaration = declaration.as_ref().map(|d| self.emit(d, Some(node)));
                NodeKind::ExportNamed {
                    specifiers: list,
                    source: source.map(|s| s.to_string()),
                    declaration,
                }
            }
            T::ExportDefault(declaration) => {
                NodeKind::ExportDefault { declaration: self.emit(declaration, Some(node)) }
            }
            T::ExportAll(source) => NodeKind::ExportAll { source: source.to_string() },
        };
        self.nodes[node].kind = kind;
        node
    }
}

fn program(body: Vec<T>) -> SyntaxTree {
    let mut b = Builder {
        nodes: vec![],
        references: vec![],
        symbols: vec![],
        symbol_names: vec![],
        reference_names: vec![],
    };
    let root = b.reserve(None);
    let body = b.list(&body, root);
    b.nodes[root].kind = NodeKind::Program { body };
    for r in 0..b.references.len() {
        if let Some(symbol) = b.symbol_names.iter().position(|n| *n == b.reference_names[r]) {
            b.references[r].symbol = Some(symbol);
            b.symbols[symbol].references.push(r);
        }
    }
    SyntaxTree::new(b.nodes, b.references, b.symbols).expect("the tree is in order")
}

// ---------------------------------------------------------------------------
// A project in memory, and the loop that a caller runs around the library.

struct Project {
    files: Vec<(&'static str, SyntaxTree)>,
    resolver: Vec<(&'static str, &'static str)>,
}

impl Project {
    fn new() -> Self {
        Project {
            files: vec![],
            resolver: vec![
                ("i18next", "/modules/i18next/index.js"),
                ("react-i18next", "/modules/react-i18next/index.js"),
            ],
        }
    }

    fn file(mut self, path: &'static str, body: Vec<T>) -> Self {
        self.files.push((path, program(body)));
        self
    }

    fn resolve(mut self, specifier: &'static str, path: &'static str) -> Self {
        self.resolver.push((specifier, path));
        self
    }

    fn answers(&self, specifiers: &[String]) -> Vec<Resolution> {
        specifiers
            .iter()
            .map(|specifier| Resolution {
                specifier: specifier.clone(),
                path: self
                    .resolver
                    .iter()
                    .find(|(from, _)| from == specifier)
                    .map(|(_, to)| to.to_string()),
            })
            .collect()
    }

    fn analyze(
        &self,
        entries: &[&str],
        externals: Vec<String>,
        extend: Option<Vec<I18nPackage>>,
    ) -> NodeStore {
        let payload = Payload {
            tsconfig_path: String::new(),
            entry_paths: entries.iter().map(|e| e.to_string()).collect(),
            externals,
            extend_i18n_packages: extend,
        };
        let mut analyzer: Analyzer = match prepare(&payload) {
            Ok(analyzer) => analyzer,
            Err(_) => panic!("the payload is refused"),
        };
        let wanted = package_specifiers(&payload.extend_i18n_packages);
        let packages = Analyzer::extend_i18n_packages(payload.extend_i18n_packages, &self.answers(&wanted));
        analyzer.seed(&packages);
        for entry in entries {
            let mut action = analyzer.analyze(entry.to_string(), None);
            loop {
                action = match action {
                    Action::Done => break,
                    Action::Next => analyzer.advance(),
                    Action::Load(path) => match self.files.iter().find(|(p, _)| *p == path) {
                        Some((_, tree)) => {
                            let answers = self.answers(&import_sources(tree));
                            analyzer.loaded(Some((tree, &answers)))
                        }
                        None => analyzer.loaded(None),
                    },
                };
            }
        }
        analyzer.node_store
    }

    fn collect_with(
        self,
        entries: &[&str],
        externals: Vec<String>,
        extend: Option<Vec<I18nPackage>>,
    ) -> Collector {
        let store = self.analyze(entries, externals, extend);
        let mut collector = Collector::new(store);
        let sources: Vec<SourceFile> = self
            .files
            .into_iter()
            .map(|(path, tree)| SourceFile { path: path.to_string(), tree })
            .collect();
        collector.collect_keys(&sources);
        collector
    }

    fn collect(self, entry: &'static str) -> Collector {
        self.collect_with(&[entry], vec![], None)
    }
}

fn sorted(mut keys: Vec<String>) -> Vec<String> {
    keys.sort();
    keys
}

fn namespaces(collector: &Collector) -> Vec<String> {
    sorted(collector.i18n_namespaces.entries.iter().map(|e| e.namespace.clone()).collect())
}

// ---------------------------------------------------------------------------

#[test]
fn filter_externals() {}

#[test]
fn nothing_about_i18n() {
    let collector = Project::new()
        .file("/src/a.tsx", vec![constant(T::Bind("x"), s("NOT_A_KEY")), stmt(call(id("f"), vec![id("x")]))])
        .collect("/src/a.tsx");
    assert_eq!(collector.get_keys("default"), Vec::<String>::new());
    assert_eq!(namespaces(&collector), Vec::<String>::new());
}

#[test]
fn hook_with_namespace() {
    // import {useTranslation} from 'react-i18next';
    // const {t} = useTranslation('namespace_1'); t('HOOK_WITH_NAMESPACE');
    let collector = Project::new()
        .file(
            "/src/a.tsx",
            vec![
                import("react-i18next", vec!["useTranslation"]),
                constant(
                    T::ObjPat(vec![("t", T::Bind("t"))]),
                    call(id("useTranslation"), vec![s("namespace_1")]),
                ),
                stmt(call(id("t"), vec![s("HOOK_WITH_NAMESPACE")])),
            ],
        )
        .collect("/src/a.tsx");
    assert_eq!(collector.get_keys("namespace_1"), vec!["HOOK_WITH_NAMESPACE"]);
    assert_eq!(namespaces(&collector), vec!["namespace_1"]);
}

#[test]
fn t_with_namespace() {
    // import {t} from 'i18next'; t('T_WITH_NAMESPACE', { ns: 'namespace_1' });
    let collector = Project::new()
        .file(
            "/src/a.tsx",
            vec![
                import("i18next", vec!["t"]),
                stmt(call(
                    id("t"),
                    vec![s("T_WITH_NAMESPACE"), T::Object(vec![("ns", s("namespace_1"))])],
                )),
            ],
        )
        .collect("/src/a.tsx");
    assert_eq!(collector.get_keys("namespace_1"), vec!["T_WITH_NAMESPACE"]);
    assert_eq!(namespaces(&collector), vec!["namespace_1"]);
}

#[test]
fn namespace_override() {
    let collector = Project::new()
        .file(
            "/src/a.tsx",
            vec![
                import("react-i18next", vec!["useTranslation"]),
                constant(
                    T::ObjPat(vec![("t", T::Bind("t"))]),
                    call(id("useTranslation"), vec![s("namespace_1")]),
                ),
                stmt(call(
                    id("t"),
                    vec![s("NAMESPACE_OVERRIDE"), T::Object(vec![("ns", s("namespace_2"))])],
                )),
            ],
        )
        .collect("/src/a.tsx");
    assert_eq!(collector.get_keys("namespace_2"), vec!["NAMESPACE_OVERRIDE"]);
    assert_eq!(namespaces(&collector), vec!["namespace_2"]);
}

#[test]
fn global_t() {
    let collector = Project::new()
        .file(
            "/src/a.ts",
            vec![import("i18next", vec!["t"]), stmt(call(id("t"), vec![s("GLOBAL_T")]))],
        )
        .collect("/src/a.ts");
    assert_eq!(collector.get_keys("default"), vec!["GLOBAL_T"]);
}

#[test]
fn rename_both() {
    // import {useTranslation as useT} from 'react-i18next'; const {t: tr} = useT(); tr('RENAME_BOTH');
    let collector = Project::new()
        .file(
            "/src/a.tsx",
            vec![
                T::Import("react-i18next", Some(vec![Spec::Named("useTranslation", "useT")])),
                constant(T::ObjPat(vec![("t", T::Bind("tr"))]), call(id("useT"), vec![])),
                stmt(call(id("tr"), vec![s("RENAME_BOTH")])),
            ],
        )
        .collect("/src/a.tsx");
    assert_eq!(collector.get_keys("default"), vec!["RENAME_BOTH"]);
}

#[test]
fn rename_t() {
    let collector = Project::new()
        .file(
            "/src/a.tsx",
            vec![
                T::Import("i18next", Some(vec![Spec::Named("t", "translate")])),
                stmt(call(id("translate"), vec![s("RENAME_T")])),
            ],
        )
        .collect("/src/a.tsx");
    assert_eq!(collector.get_keys("default"), vec!["RENAME_T"]);
}

#[test]
fn member_t() {
    // import {i18n} from 'i18next'; i18n.t('MEMBER_T');
    let collector = Project::new()
        .file(
            "/src/a.ts",
            vec![
                import("i18next", vec!["i18n"]),
                stmt(call(T::Member(Box::new(id("i18n")), "t"), vec![s("MEMBER_T")])),
            ],
        )
        .collect("/src/a.ts");
    assert_eq!(collector.get_keys("default"), vec!["MEMBER_T"]);
}

#[test]
fn member_call_t() {
    // const trans = useTranslation('namespace_1'); trans.t('MEMBER_CALL_T');
    let collector = Project::new()
        .file(
            "/src/a.tsx",
            vec![
                import("react-i18next", vec!["useTranslation"]),
                constant(T::Bind("trans"), call(id("useTranslation"), vec![s("namespace_1")])),
                stmt(call(T::Member(Box::new(id("trans")), "t"), vec![s("MEMBER_CALL_T")])),
            ],
        )
        .collect("/src/a.tsx");
    assert_eq!(collector.get_keys("namespace_1"), vec!["MEMBER_CALL_T"]);
}

#[test]
fn namespace_import() {
    // import * as i18n from 'react-i18next'; const {t} = i18n.useTranslation(); t('NAMESPACE_IMPORT');
    let collector = Project::new()
        .file(
            "/src/a.tsx",
            vec![
                T::Import("react-i18next", Some(vec![Spec::Namespace("i18n")])),
                constant(
                    T::ObjPat(vec![("t", T::Bind("t"))]),
                    call(T::Member(Box::new(id("i18n")), "useTranslation"), vec![]),
                ),
                stmt(call(id("t"), vec![s("NAMESPACE_IMPORT")])),
                stmt(call(T::Member(Box::new(id("i18n")), "t"), vec![s("NAMESPACE_T")])),
            ],
        )
        .collect("/src/a.tsx");
    assert_eq!(collector.get_keys("default"), vec!["NAMESPACE_IMPORT", "NAMESPACE_T"]);
}

#[test]
fn namespace_from_variable() {
    let collector = Project::new()
        .file(
            "/src/a.tsx",
            vec![
                import("react-i18next", vec!["useTranslation"]),
                constant(T::Bind("ns"), s("namespace_3")),
                constant(
                    T::ObjPat(vec![("t", T::Bind("t"))]),
                    call(id("useTranslation"), vec![id("ns")]),
                ),
                stmt(call(id("t"), vec![s("NAMESPACE_FROM_VAR")])),
            ],
        )
        .collect("/src/a.tsx");
    assert_eq!(collector.get_keys("namespace_3"), vec!["NAMESPACE_FROM_VAR"]);
}

#[test]
fn namespace_from_array_and_object() {
    let collector = Project::new()
        .file(
            "/src/a.tsx",
            vec![
                import("react-i18next", vec!["useTranslation"]),
                constant(
                    T::ObjPat(vec![("t", T::Bind("t"))]),
                    call(id("useTranslation"), vec![T::Array(vec![s("first"), s("second")])]),
                ),
                stmt(call(id("t"), vec![s("FROM_ARRAY")])),
                constant(
                    T::ObjPat(vec![("t", T::Bind("u"))]),
                    call(id("useTranslation"), vec![T::Object(vec![("ns", s("third"))])]),
                ),
                stmt(call(id("u"), vec![s("FROM_OBJECT")])),
            ],
        )
        .collect("/src/a.tsx");
    assert_eq!(collector.get_keys("first"), vec!["FROM_ARRAY"]);
    assert_eq!(collector.get_keys("third"), vec!["FROM_OBJECT"]);
    assert_eq!(namespaces(&collector), vec!["first", "third"]);
}

#[test]
fn i18n_code_from_string_literal() {
    let collector = Project::new()
        .file(
            "/src/a.tsx",
            vec![
                import("i18next", vec!["t"]),
                constant(T::Bind("code"), s("I18N_CODE_FROM_STRING_LITERAL")),
                stmt(call(id("t"), vec![id("code")])),
            ],
        )
        .collect("/src/a.tsx");
    assert_eq!(collector.get_keys("default"), vec!["I18N_CODE_FROM_STRING_LITERAL"]);
}

#[test]
fn i18n_code_from_template_literal() {
    let collector = Project::new()
        .file(
            "/src/a.tsx",
            vec![
                import("i18next", vec!["t"]),
                constant(T::Bind("part"), s("TEMPLATE")),
                stmt(call(
                    id("t"),
                    vec![T::Tpl(vec!["I18N_CODE_FROM_", "_LITERAL"], vec![id("part")])],
                )),
                stmt(call(id("t"), vec![T::Tpl(vec!["PLAIN_TEMPLATE"], vec![])])),
            ],
        )
        .collect("/src/a.tsx");
    assert_eq!(
        collector.get_keys("default"),
        vec!["I18N_CODE_FROM_TEMPLATE_LITERAL", "PLAIN_TEMPLATE"]
    );
}

#[test]
fn i18n_code_cross_file() {
    // A: export const K = 'I18N_CODE_CROSS_FILE';
    // B: import {K} from './A'; import {t} from 'i18next'; t(K);
    let collector = Project::new()
        .resolve("./A", "/src/A.ts")
        .file(
            "/src/A.ts",
            vec![T::ExportNamed(
                vec![],
                None,
                Some(Box::new(constant(T::Bind("K"), s("I18N_CODE_CROSS_FILE")))),
            )],
        )
        .file(
            "/src/B.tsx",
            vec![
                import("./A", vec!["K"]),
                import("i18next", vec!["t"]),
                stmt(call(id("t"), vec![id("K")])),
            ],
        )
        .collect("/src/B.tsx");
    assert_eq!(collector.get_keys("default"), vec!["I18N_CODE_CROSS_FILE"]);
    assert_eq!(namespaces(&collector), vec!["default"]);
}

#[test]
fn i18n_code_cross_file_through_reexport() {
    // C: export const K = 'FAR_' + 'AWAY';  A: export {K as L} from './C';
    // B: import {L} from './A'; t(L);
    let collector = Project::new()
        .resolve("./A", "/src/A.ts")
        .resolve("./C", "/src/C.ts")
        .file(
            "/src/C.ts",
            vec![T::ExportNamed(
                vec![],
                None,
                Some(Box::new(constant(
                    T::Bind("K"),
                    T::Add(Box::new(s("FAR_")), Box::new(s("AWAY"))),
                ))),
            )],
        )
        .file("/src/A.ts", vec![T::ExportNamed(vec![("K", "L")], Some("./C"), None)])
        .file(
            "/src/B.tsx",
            vec![
                import("./A", vec!["L"]),
                import("i18next", vec!["t"]),
                stmt(call(id("t"), vec![id("L")])),
            ],
        )
        .collect("/src/B.tsx");
    assert_eq!(collector.get_keys("default"), vec!["FAR_AWAY"]);
}

#[test]
fn unresolved_import_is_not_a_key() {
    let collector = Project::new()
        .resolve("./A", "/src/A.ts")
        .file("/src/A.ts", vec![stmt(call(id("f"), vec![]))])
        .file(
            "/src/B.tsx",
            vec![
                import("./A", vec!["K"]),
                import("i18next", vec!["t"]),
                stmt(call(id("t"), vec![id("K")])),
            ],
        )
        .collect("/src/B.tsx");
    assert_eq!(collector.get_keys("default"), Vec::<String>::new());
}

#[test]
fn cyclic_constants_have_no_text() {
    let collector = Project::new()
        .file(
            "/src/a.ts",
            vec![
                import("i18next", vec!["t"]),
                constant(T::Bind("a"), id("b")),
                constant(T::Bind("b"), id("a")),
                stmt(call(id("t"), vec![id("a")])),
                stmt(call(id("t"), vec![s("AFTER")])),
            ],
        )
        .collect("/src/a.ts");
    assert_eq!(collector.get_keys("default"), vec!["AFTER"]);
}

#[test]
fn i18n_code_dynamic() {
    // import {t} from 'i18next'; const p = 'I18N_CODE_DYNAMIC';
    // ['hello','world'].map(v => t(p + '_' + v));
    let key = T::Add(
        Box::new(T::Add(Box::new(id("p")), Box::new(s("_")))),
        Box::new(id("v")),
    );
    let collector = Project::new()
        .file(
            "/src/a.tsx",
            vec![
                import("i18next", vec!["t"]),
                constant(T::Bind("p"), s("I18N_CODE_DYNAMIC")),
                stmt(call(
                    T::Member(Box::new(T::Array(vec![s("hello"), s("world")])), "map"),
                    vec![T::Arrow(vec![T::Bind("v")], vec![stmt(call(id("t"), vec![key]))], true)],
                )),
            ],
        )
        .collect("/src/a.tsx");
    assert_eq!(
        collector.get_keys("default"),
        vec!["I18N_CODE_DYNAMIC_hello", "I18N_CODE_DYNAMIC_world"]
    );
}

#[test]
fn trans_component() {
    // import {Trans} from 'react-i18next'; <Trans i18nKey="TRANS_COMPONENT" />
    let collector = Project::new()
        .file(
            "/src/a.tsx",
            vec![
                import("react-i18next", vec!["Trans"]),
                stmt(T::Jsx("Trans", vec![("i18nKey", Some(s("TRANS_COMPONENT")))], vec![])),
            ],
        )
        .collect("/src/a.tsx");
    assert_eq!(collector.get_keys("default"), vec!["TRANS_COMPONENT"]);
    assert_eq!(namespaces(&collector), vec!["default"]);
}

#[test]
fn translation_component() {
    // <Translation>{(t) => <p>{t('TRANSLATION_COMPONENT')}</p>}</Translation>
    let inner = T::Jsx(
        "p",
        vec![],
        vec![T::JsxExpr(Some(Box::new(call(id("t"), vec![s("TRANSLATION_COMPONENT")]))))],
    );
    let collector = Project::new()
        .file(
            "/src/a.tsx",
            vec![
                import("react-i18next", vec!["Translation"]),
                stmt(T::Jsx(
                    "Translation",
                    vec![],
                    vec![T::JsxExpr(Some(Box::new(T::Arrow(
                        vec![T::Bind("t")],
                        vec![stmt(inner)],
                        true,
                    ))))],
                )),
            ],
        )
        .collect("/src/a.tsx");
    assert_eq!(collector.get_keys("default"), vec!["TRANSLATION_COMPONENT"]);
}

#[test]
fn hoc_component() {
    // import {withTranslation} from 'react-i18next';
    // const C = ({t}) => t('HOC_COMPONENT'); export default withTranslation()(C);
    let collector = Project::new()
        .file(
            "/src/a.tsx",
            vec![
                import("react-i18next", vec!["withTranslation"]),
                constant(
                    T::Bind("C"),
                    T::Arrow(
                        vec![T::ObjPat(vec![("t", T::Bind("t"))])],
                        vec![stmt(call(id("t"), vec![s("HOC_COMPONENT")]))],
                        true,
                    ),
                ),
                T::ExportDefault(Box::new(call(call(id("withTranslation"), vec![]), vec![id("C")]))),
            ],
        )
        .collect("/src/a.tsx");
    assert_eq!(collector.get_keys("default"), vec!["HOC_COMPONENT"]);
    assert_eq!(namespaces(&collector), vec!["default"]);
}

#[test]
fn hoc_component_by_reference() {
    // function C({t}) { return t('HOC_DIRECT'); }  withTranslation(C);
    let collector = Project::new()
        .file(
            "/src/a.tsx",
            vec![
                import("react-i18next", vec!["withTranslation"]),
                T::Func(
                    Some("C"),
                    vec![T::ObjPat(vec![("t", T::Bind("t"))])],
                    vec![T::Return(Some(Box::new(call(id("t"), vec![s("HOC_DIRECT")]))))],
                    false,
                ),
                stmt(call(id("withTranslation"), vec![id("C")])),
            ],
        )
        .collect("/src/a.tsx");
    assert_eq!(collector.get_keys("default"), vec!["HOC_DIRECT"]);
}

#[test]
fn wrap_use_translation() {
    // hook.ts: import {useTranslation} from 'react-i18next';
    //          export const useFeTranslation = () => useTranslation('namespace_3');
    // Component.tsx: import {useFeTranslation} from './hook';
    //          const {t} = useFeTranslation(); t('WRAPPED_USE_TRANSLATION_NS');
    let collector = Project::new()
        .resolve("./hook", "/src/hook.ts")
        .file(
            "/src/hook.ts",
            vec![
                import("react-i18next", vec!["useTranslation"]),
                T::ExportNamed(
                    vec![],
                    None,
                    Some(Box::new(constant(
                        T::Bind("useFeTranslation"),
                        T::Arrow(
                            vec![],
                            vec![stmt(call(id("useTranslation"), vec![s("namespace_3")]))],
                            true,
                        ),
                    ))),
                ),
            ],
        )
        .file(
            "/src/Component.tsx",
            vec![
                import("./hook", vec!["useFeTranslation"]),
                constant(T::ObjPat(vec![("t", T::Bind("t"))]), call(id("useFeTranslation"), vec![])),
                stmt(call(id("t"), vec![s("WRAPPED_USE_TRANSLATION_NS")])),
            ],
        )
        .collect("/src/Component.tsx");
    assert_eq!(collector.get_keys("namespace_3"), vec!["WRAPPED_USE_TRANSLATION_NS"]);
    assert_eq!(namespaces(&collector), vec!["namespace_3"]);
}

#[test]
fn wrapper_in_the_same_file() {
    // const useX = () => useTranslation('inner'); const {t} = useX(); t('THROUGH_WRAPPER');
    let collector = Project::new()
        .file(
            "/src/a.tsx",
            vec![
                import("react-i18next", vec!["useTranslation"]),
                constant(
                    T::Bind("useX"),
                    T::Arrow(vec![], vec![stmt(call(id("useTranslation"), vec![s("inner")]))], true),
                ),
                constant(T::ObjPat(vec![("t", T::Bind("t"))]), call(id("useX"), vec![])),
                stmt(call(id("t"), vec![s("THROUGH_WRAPPER")])),
            ],
        )
        .collect("/src/a.tsx");
    assert_eq!(collector.get_keys("inner"), vec!["THROUGH_WRAPPER"]);
}

#[test]
fn custom_hook_rewrites_its_argument() {
    // hook.ts: export const useKey = (key) => { const {t} = useTranslation(); return t(`WRAPPED_${key}`); }
    // Component.tsx: import {useKey} from './hook'; useKey('USE_TRANSLATION');
    let collector = Project::new()
        .resolve("./hook", "/src/hook.ts")
        .file(
            "/src/hook.ts",
            vec![
                import("react-i18next", vec!["useTranslation"]),
                T::ExportNamed(
                    vec![],
                    None,
                    Some(Box::new(constant(
                        T::Bind("useKey"),
                        T::Arrow(
                            vec![T::Bind("key")],
                            vec![
                                constant(
                                    T::ObjPat(vec![("t", T::Bind("t"))]),
                                    call(id("useTranslation"), vec![]),
                                ),
                                T::Return(Some(Box::new(call(
                                    id("t"),
                                    vec![T::Tpl(vec!["WRAPPED_", ""], vec![id("key")])],
                                )))),
                            ],
                            false,
                        ),
                    ))),
                ),
            ],
        )
        .file(
            "/src/Component.tsx",
            vec![
                import("./hook", vec!["useKey"]),
                stmt(call(id("useKey"), vec![s("USE_TRANSLATION")])),
            ],
        )
        .collect("/src/Component.tsx");
    assert_eq!(collector.get_keys("default"), vec!["WRAPPED_USE_TRANSLATION"]);
}

#[test]
fn custom_hook_without_pattern_keeps_the_key() {
    let collector = Project::new()
        .resolve("./hook", "/src/hook.ts")
        .file(
            "/src/hook.ts",
            vec![
                import("react-i18next", vec!["useTranslation"]),
                T::ExportNamed(
                    vec![],
                    None,
                    Some(Box::new(constant(
                        T::Bind("useKey"),
                        T::Arrow(
                            vec![T::Bind("key")],
                            vec![
                                constant(
                                    T::ObjPat(vec![("t", T::Bind("t"))]),
                                    call(id("useTranslation"), vec![]),
                                ),
                                T::Return(Some(Box::new(call(id("t"), vec![id("key")])))),
                            ],
                            false,
                        ),
                    ))),
                ),
            ],
        )
        .file(
            "/src/Component.tsx",
            vec![import("./hook", vec!["useKey"]), stmt(call(id("useKey"), vec![s("AS_IS")]))],
        )
        .collect("/src/Component.tsx");
    assert_eq!(collector.get_keys("default"), vec!["AS_IS"]);
}

#[test]
fn duplicate_keys_are_kept_once() {
    let collector = Project::new()
        .resolve("./b", "/src/b.ts")
        .file(
            "/src/a.ts",
            vec![
                import("i18next", vec!["t"]),
                import("./b", vec!["x"]),
                stmt(call(id("t"), vec![s("SAME")])),
                stmt(call(id("t"), vec![s("SAME")])),
            ],
        )
        .file(
            "/src/b.ts",
            vec![import("i18next", vec!["t"]), stmt(call(id("t"), vec![s("SAME")]))],
        )
        .collect("/src/a.ts");
    assert_eq!(collector.get_keys("default"), vec!["SAME"]);
}

#[test]
fn scan_twice_gives_equal_maps() {
    let build = || {
        Project::new()
            .resolve("./b", "/src/b.ts")
            .file(
                "/src/a.ts",
                vec![
                    import("i18next", vec!["t"]),
                    import("./b", vec!["x"]),
                    stmt(call(id("t"), vec![s("ONE"), T::Object(vec![("ns", s("n1"))])])),
                ],
            )
            .file(
                "/src/b.ts",
                vec![import("i18next", vec!["t"]), stmt(call(id("t"), vec![s("TWO")]))],
            )
            .collect("/src/a.ts")
    };
    let first = build();
    let second = build();
    assert_eq!(namespaces(&first), namespaces(&second));
    for namespace in namespaces(&first) {
        assert_eq!(sorted(first.get_keys(&namespace)), sorted(second.get_keys(&namespace)));
    }
    assert_eq!(first.get_keys("n1"), vec!["ONE"]);
    assert_eq!(first.get_keys("default"), vec!["TWO"]);
}

// ---------------------------------------------------------------------------
// The graph.

fn small_project() -> Project {
    Project::new()
        .resolve("./b", "/src/b.ts")
        .resolve("./a", "/src/a.ts")
        .resolve("./plain", "/src/plain.ts")
        .resolve("./style.css", "/src/style.css")
        .resolve("lodash", "/modules/lodash/index.js")
        .file(
            "/src/a.ts",
            vec![
                import("i18next", vec!["t"]),
                import("./b", vec!["x"]),
                import("./plain", vec!["y"]),
                import("./style.css", vec![]),
                import("./missing", vec!["z"]),
                stmt(call(id("t"), vec![s("A")])),
            ],
        )
        .file("/src/b.ts", vec![import("./a", vec!["w"]), T::ExportAll("./plain")])
        .file("/src/plain.ts", vec![T::ExportDefault(Box::new(s("nothing")))])
}

#[test]
fn every_edge_leads_to_a_node_that_lists_its_importer() {
    let store = small_project().analyze(&["/src/a.ts"], vec![], None);
    assert_eq!(store.nodes.len(), 5);
    let mut edges = 0;
    for node in store.nodes.iter() {
        for edge in node.importing.iter() {
            edges += 1;
            let target = store.get_node(&edge.target).expect("the target is a node");
            assert!(target.imports.contains(&node.file_path));
        }
    }
    assert_eq!(edges, 5);
    assert!(store.get_node("/src/style.css").is_none());
}

#[test]
fn a_marked_node_imports_an_exporter() {
    let store = small_project().analyze(&["/src/a.ts"], vec![], None);
    let marked = store.get_all_i18n_nodes();
    assert_eq!(marked, vec!["/src/a.ts"]);
    for node in store.nodes.iter().filter(|n| n.has_i18n_source_imported()) {
        assert!(node.importing.iter().any(|edge| store
            .get_node(&edge.target)
            .map_or(false, |target| target.has_exported_i18n_methods())));
    }
    assert_eq!(
        store.get_i18n_exported_nodes(),
        vec!["/modules/i18next/index.js", "/modules/react-i18next/index.js"]
    );
}

#[test]
fn externals_are_dropped_unless_seeded() {
    let project = || {
        Project::new().resolve("lodash", "/modules/lodash/index.js").file(
            "/src/a.ts",
            vec![
                import("lodash", vec!["map"]),
                T::Import("lodash/fp", Some(vec![Spec::Default("fp")])),
                import("i18next", vec!["t"]),
                stmt(call(id("t"), vec![s("KEPT")])),
            ],
        )
    };
    let open = project().analyze(&["/src/a.ts"], vec![], None);
    assert!(open.get_node("/src/a.ts").unwrap().importing.iter().any(|e| e.specifier == "i18next"));
    let externals = vec!["lodash".to_string(), "i18next".to_string()];
    let closed = project().analyze(&["/src/a.ts"], externals.clone(), None);
    let node = closed.get_node("/src/a.ts").unwrap();
    let specifiers: Vec<&str> = node.importing.iter().map(|e| e.specifier.as_str()).collect();
    assert_eq!(specifiers, vec!["i18next"]);
    assert!(node.has_i18n_source_imported());
    let collector = project().collect_with(&["/src/a.ts"], externals, None);
    assert_eq!(collector.get_keys("default"), vec!["KEPT"]);
}

#[test]
fn external_pattern_covers_paths_below_the_package() {
    let project = Project::new()
        .resolve("@scope/pkg", "/src/pkg.ts")
        .resolve("@scope/pkg/deep", "/src/deep.ts")
        .resolve("@scope/pkg-other", "/src/other.ts")
        .file(
            "/src/a.ts",
            vec![
                import("@scope/pkg", vec!["a"]),
                import("@scope/pkg/deep", vec!["b"]),
                import("@scope/pkg-other", vec!["c"]),
            ],
        )
        .file("/src/pkg.ts", vec![])
        .file("/src/deep.ts", vec![])
        .file("/src/other.ts", vec![]);
    let store = project.analyze(&["/src/a.ts"], vec!["@scope/pkg".to_string()], None);
    assert!(store.get_node("/src/pkg.ts").is_none());
    assert!(store.get_node("/src/deep.ts").is_none());
    assert!(store.get_node("/src/other.ts").is_some());
}

#[test]
fn invalid_external_is_refused() {
    let payload = Payload {
        tsconfig_path: String::new(),
        entry_paths: vec!["/src/a.ts".to_string()],
        externals: vec!["fine".to_string(), "(".to_string()],
        extend_i18n_packages: None,
    };
    assert!(matches!(prepare(&payload), Err(ScanError::InvalidExternal(1))));
}

#[test]
fn empty_entries_are_refused() {
    let payload = Payload {
        tsconfig_path: String::new(),
        entry_paths: vec![],
        externals: vec!["(".to_string()],
        extend_i18n_packages: None,
    };
    assert!(matches!(prepare(&payload), Err(ScanError::EmptyEntries)));
}

#[test]
fn user_package_gets_the_missing_kinds() {
    let extend = vec![I18nPackage {
        package_path: "@custom/i18n".to_string(),
        members: vec![Member {
            name: "useFeTranslation".to_string(),
            kind: I18nType::Hook,
            ns: Some("namespace_3".to_string()),
        }],
    }];
    let project = Project::new().resolve("@custom/i18n", "/modules/custom/index.ts").file(
        "/src/a.tsx",
        vec![
            T::Import(
                "@custom/i18n",
                Some(vec![Spec::Named("useFeTranslation", "useFeTranslation"), Spec::Named("t", "t")]),
            ),
            constant(T::ObjPat(vec![("t", T::Bind("tr"))]), call(id("useFeTranslation"), vec![])),
            stmt(call(id("tr"), vec![s("FROM_HOOK")])),
            stmt(call(id("t"), vec![s("FROM_T")])),
        ],
    );
    let store = project.analyze(&["/src/a.tsx"], vec![], Some(extend.clone()));
    let seeded = store.get_node("/modules/custom/index.ts").expect("the package is seeded");
    let names: Vec<&str> = seeded.exporting_members.iter().map(|e| e.name.as_str()).collect();
    assert_eq!(
        names,
        vec!["useFeTranslation", "t", "Trans", "Translation", "withTranslation", "i18n"]
    );
    assert!(seeded.exporting_members.iter().all(|e| e.member.is_some()));
    assert_eq!(store.get_i18n_exported_nodes().len(), 3);
    let project = Project::new().resolve("@custom/i18n", "/modules/custom/index.ts").file(
        "/src/a.tsx",
        vec![
            T::Import(
                "@custom/i18n",
                Some(vec![Spec::Named("useFeTranslation", "useFeTranslation"), Spec::Named("t", "t")]),
            ),
            constant(T::ObjPat(vec![("t", T::Bind("tr"))]), call(id("useFeTranslation"), vec![])),
            stmt(call(id("tr"), vec![s("FROM_HOOK")])),
            stmt(call(id("t"), vec![s("FROM_T")])),
        ],
    );
    let collector = project.collect_with(&["/src/a.tsx"], vec![], Some(extend));
    assert_eq!(collector.get_keys("namespace_3"), vec!["FROM_HOOK"]);
    assert_eq!(collector.get_keys("default"), vec!["FROM_T"]);
}

#[test]
fn unresolved_user_package_is_skipped() {
    let extend = vec![I18nPackage { package_path: "@nowhere/i18n".to_string(), members: vec![] }];
    let store = Project::new().file("/src/a.ts", vec![]).analyze(&["/src/a.ts"], vec![], Some(extend));
    assert_eq!(store.get_all_nodes().len(), 3);
}

#[test]
fn exports_are_classified() {
    let project = Project::new().file(
        "/src/hooks.ts",
        vec![
            import("react-i18next", vec!["useTranslation"]),
            T::ExportNamed(
                vec![],
                None,
                Some(Box::new(T::Const(T2(vec![
                    (
                        T::Bind("useNs"),
                        Some(T::Arrow(
                            vec![],
                            vec![stmt(call(id("useTranslation"), vec![s("wrapped")]))],
                            true,
                        )),
                    ),
                    (T::Bind("plain"), Some(s("value"))),
                    (T::Bind("Trans"), Some(s("named like a preset"))),
                    (T::ObjPat(vec![("a", T::Bind("a")), ("b", T::ObjPat(vec![("c", T::Bind("c"))]))]), Some(id("plain"))),
                    (T::ArrPat(vec![T::Bind("d")]), Some(id("plain"))),
                ])))),
            ),
            T::ExportDefault(Box::new(id("plain"))),
        ],
    );
    let store = project.analyze(&["/src/hooks.ts"], vec![], None);
    let node = store.get_node("/src/hooks.ts").unwrap();
    let names: Vec<&str> = node.exporting_members.iter().map(|e| e.name.as_str()).collect();
    assert_eq!(names, vec!["useNs", "plain", "Trans", "a", "c", "d", "default"]);
    let hook = node.i18n_member("useNs").expect("the wrapper is a hook");
    assert_eq!(hook.kind, I18nType::Hook);
    assert_eq!(hook.ns.as_deref(), Some("wrapped"));
    assert_eq!(node.i18n_member("Trans").map(|m| m.kind), Some(I18nType::TransComp));
    assert!(node.i18n_member("plain").is_none());
    assert!(node.has_exported_i18n_methods());
    assert!(node.has_i18n_source_imported());
}

#[test]
fn unreadable_file_leaves_no_node() {
    let project = Project::new()
        .resolve("./gone", "/src/gone.ts")
        .file("/src/a.ts", vec![import("./gone", vec!["x"])]);
    let store = project.analyze(&["/src/a.ts"], vec![], None);
    assert!(store.get_node("/src/gone.ts").is_none());
    assert!(store.get_node("/src/a.ts").unwrap().importing.is_empty());
}

#[test]
fn entry_that_is_no_script_is_left_alone() {
    let store = Project::new().analyze(&["/src/readme.md"], vec![], None);
    assert_eq!(store.get_all_nodes().len(), 2);
}

#[test]
fn dynamic_import_is_followed() {
    let project = Project::new()
        .resolve("./lazy", "/src/lazy.ts")
        .file(
            "/src/a.ts",
            vec![constant(
                T::Bind("load"),
                T::Arrow(vec![], vec![stmt(T::ImportCall(Box::new(s("./lazy"))))], true),
            )],
        )
        .file(
            "/src/lazy.ts",
            vec![import("i18next", vec!["t"]), stmt(call(id("t"), vec![s("LAZY")]))],
        );
    let store = project.analyze(&["/src/a.ts"], vec![], None);
    let edges: Vec<(&str, &str)> = store
        .get_node("/src/a.ts")
        .unwrap()
        .importing
        .iter()
        .map(|e| (e.specifier.as_str(), e.target.as_str()))
        .collect();
    assert_eq!(edges, vec![("./lazy", "/src/lazy.ts")]);
    assert_eq!(store.get_all_i18n_nodes(), vec!["/src/lazy.ts"]);
}

#[test]
fn a_file_is_analyzed_once() {
    let project = Project::new()
        .resolve("./b", "/src/b.ts")
        .resolve("./b.ts", "/src/b.ts")
        .resolve("./c", "/src/c.ts")
        .file("/src/a.ts", vec![import("./b", vec!["x"]), import("./c", vec!["y"]), import("./b.ts", vec!["z"])])
        .file("/src/b.ts", vec![])
        .file("/src/c.ts", vec![import("./b", vec!["x"])]);
    let store = project.analyze(&["/src/a.ts", "/src/c.ts"], vec![], None);
    assert_eq!(
        store.get_all_nodes(),
        vec![
            "/modules/i18next/index.js",
            "/modules/react-i18next/index.js",
            "/src/a.ts",
            "/src/b.ts",
            "/src/c.ts"
        ]
    );
    let b = store.get_node("/src/b.ts").unwrap();
    assert_eq!(sorted(b.imports.clone()), vec!["/src/a.ts", "/src/c.ts"]);
    let a = store.get_node("/src/a.ts").unwrap();
    assert_eq!(a.importing.len(), 3);
    assert_eq!(a.importing_target("./b.ts").map(|p| p.as_str()), Some("/src/b.ts"));
}

#[test]
fn translation_component_with_fragment() {
    let collector = Project::new()
        .file(
            "/src/a.tsx",
            vec![
                import("react-i18next", vec!["Translation"]),
                stmt(T::Jsx(
                    "Translation",
                    vec![],
                    vec![T::JsxExpr(Some(Box::new(T::Arrow(
                        vec![T::Bind("t")],
                        vec![T::Return(Some(Box::new(T::Fragment(vec![
                            T::JsxExpr(Some(Box::new(call(id("t"), vec![s("IN_FRAGMENT")])))),
                            T::JsxExpr(None),
                            T::JsxExpr(Some(Box::new(call(id("other"), vec![s("NOT_A_KEY")])))),
                        ]))))],
                        false,
                    ))))],
                )),
            ],
        )
        .collect("/src/a.tsx");
    assert_eq!(collector.get_keys("default"), vec!["IN_FRAGMENT"]);
}

#[test]
fn members_of_a_user_package_name_the_translator() {
    let extend = vec![I18nPackage {
        package_path: "@custom/i18n".to_string(),
        members: vec![
            Member {
                name: "useI18n".to_string(),
                kind: I18nType::Hook,
                ns: Some("custom".to_string()),
            },
            Member { name: "translate".to_string(), kind: I18nType::TMethod, ns: None },
            Member {
                name: "Message".to_string(),
                kind: I18nType::TransComp,
                ns: Some("messages".to_string()),
            },
        ],
    }];
    let collector = Project::new()
        .resolve("@custom/i18n", "/modules/custom/index.ts")
        .file(
            "/src/a.tsx",
            vec![
                import("@custom/i18n", vec!["useI18n", "Message"]),
                constant(
                    T::ObjPat(vec![("translate", T::Bind("tr")), ("other", T::Bind("o"))]),
                    call(id("useI18n"), vec![]),
                ),
                stmt(call(id("tr"), vec![s("BY_MEMBER_NAME")])),
                stmt(call(id("o"), vec![s("NOT_A_KEY")])),
                stmt(T::Jsx("Message", vec![("i18nKey", Some(s("IN_MARKUP"))), ("id", Some(s("x")))], vec![])),
            ],
        )
        .collect_with(&["/src/a.tsx"], vec![], Some(extend));
    assert_eq!(collector.get_keys("custom"), vec!["BY_MEMBER_NAME"]);
    assert_eq!(collector.get_keys("messages"), vec!["IN_MARKUP"]);
    assert_eq!(namespaces(&collector), vec!["custom", "messages"]);
}

#[test]
fn key_put_together_from_parts() {
    let collector = Project::new()
        .file(
            "/src/a.ts",
            vec![
                import("i18next", vec!["t"]),
                constant(T::Bind("prefix"), s("PART")),
                constant(T::Bind("alias"), id("prefix")),
                stmt(call(id("t"), vec![T::Add(Box::new(id("alias")), Box::new(s("_ONE")))])),
                stmt(call(id("t"), vec![T::Add(Box::new(id("unknown")), Box::new(s("_TWO")))])),
                stmt(call(id("t"), vec![])),
            ],
        )
        .collect("/src/a.ts");
    assert_eq!(collector.get_keys("default"), vec!["PART_ONE"]);
}

#[test]
fn hook_without_namespace_takes_its_argument_as_key() {
    let extend = vec![I18nPackage {
        package_path: "@custom/i18n".to_string(),
        members: vec![Member { name: "useI18n".to_string(), kind: I18nType::Hook, ns: None }],
    }];
    let collector = Project::new()
        .resolve("@custom/i18n", "/modules/custom/index.ts")
        .file(
            "/src/a.tsx",
            vec![import("@custom/i18n", vec!["useI18n"]), stmt(call(id("useI18n"), vec![s("GIVEN")]))],
        )
        .collect_with(&["/src/a.tsx"], vec![], Some(extend));
    assert_eq!(collector.get_keys("default"), vec!["GIVEN"]);
}

#[test]
fn a_file_that_imports_a_target_twice_is_listed_once() {
    let project = Project::new()
        .resolve("./b", "/src/b.ts")
        .resolve("./b.ts", "/src/b.ts")
        .file(
            "/src/a.ts",
            vec![
                import("./b", vec!["x"]),
                import("./b.ts", vec!["y"]),
                import("./b", vec!["z"]),
                import("i18next", vec!["t"]),
                T::Import("i18next", Some(vec![Spec::Default("i18n")])),
            ],
        )
        .file("/src/b.ts", vec![]);
    let store = project.analyze(&["/src/a.ts"], vec![], None);
    assert_eq!(store.get_node("/src/b.ts").unwrap().imports, vec!["/src/a.ts"]);
    assert_eq!(store.get_node("/modules/i18next/index.js").unwrap().imports, vec!["/src/a.ts"]);
    let a = store.get_node("/src/a.ts").unwrap();
    let specifiers: Vec<&str> = a.importing.iter().map(|e| e.specifier.as_str()).collect();
    assert_eq!(sorted(specifiers.iter().map(|s| s.to_string()).collect()), vec!["./b", "./b.ts", "i18next"]);
    assert!(a.has_i18n_source_imported());
}

fn both_passes() -> Project {
    Project::new()
        .resolve("./b", "/src/b.ts")
        .resolve("./a", "/src/a.ts")
        .resolve("./gone", "/src/gone.ts")
        .file(
            "/src/a.ts",
            vec![
                import("i18next", vec!["t"]),
                import("./b", vec!["x"]),
                import("./gone", vec!["y"]),
                stmt(call(id("t"), vec![s("ONE"), T::Object(vec![("ns", s("n1"))])])),
            ],
        )
        .file(
            "/src/b.ts",
            vec![
                import("./a", vec!["w"]),
                import("react-i18next", vec!["useTranslation"]),
                constant(T::ObjPat(vec![("t", T::Bind("t"))]), call(id("useTranslation"), vec![])),
                stmt(call(id("t"), vec![s("TWO")])),
            ],
        )
}

fn scan_at_once(entries: &[&str], externals: Vec<String>) -> Result<Vec<(String, Vec<String>)>, ScanError> {
    let project = both_passes();
    let wanted = package_specifiers(&None);
    let package_answers = project.answers(&wanted);
    let mut files = Vec::new();
    let resolver = Project { files: vec![], resolver: project.resolver.clone() };
    for (path, tree) in project.files {
        let resolutions = resolver.answers(&import_sources(&tree));
        files.push(LoadedFile { path: path.to_string(), tree, resolutions });
    }
    let sources: Vec<SourceFile> = both_passes()
        .files
        .into_iter()
        .map(|(path, tree)| SourceFile { path: path.to_string(), tree })
        .collect();
    let payload = Payload {
        tsconfig_path: String::new(),
        entry_paths: entries.iter().map(|e| e.to_string()).collect(),
        externals,
        extend_i18n_packages: None,
    };
    scan_files(payload, &package_answers, &files, &sources)
        .map(|table| table.entries.into_iter().map(|e| (e.namespace, e.keys)).collect())
}

#[test]
fn scan_at_once_finds_what_the_steps_find() {
    let at_once = scan_at_once(&["/src/a.ts", "/src/b.ts"], vec![]).expect("the payload is fine");
    let stepwise = both_passes().collect_with(&["/src/a.ts", "/src/b.ts"], vec![], None);
    let by_steps: Vec<(String, Vec<String>)> = stepwise
        .i18n_namespaces
        .entries
        .into_iter()
        .map(|e| (e.namespace, e.keys))
        .collect();
    assert_eq!(at_once, by_steps);
    assert_eq!(
        at_once,
        vec![
            ("n1".to_string(), vec!["ONE".to_string()]),
            ("default".to_string(), vec!["TWO".to_string()])
        ]
    );
    let again = scan_at_once(&["/src/a.ts", "/src/b.ts"], vec![]).expect("the payload is fine");
    assert_eq!(at_once, again);
}

#[test]
fn scan_at_once_refuses_what_prepare_refuses() {
    assert!(matches!(scan_at_once(&[], vec![]), Err(ScanError::EmptyEntries)));
    assert!(matches!(
        scan_at_once(&["/src/a.ts"], vec!["[".to_string()]),
        Err(ScanError::InvalidExternal(0))
    ));
    assert_eq!(scan_at_once(&["/src/readme.md"], vec![]).expect("nothing to find"), vec![]);
}

#[test]
fn a_later_member_of_the_same_name_wins() {
    let extend = vec![I18nPackage {
        package_path: "@custom/i18n".to_string(),
        members: vec![
            Member { name: "t".to_string(), kind: I18nType::Hook, ns: Some("first".to_string()) },
            Member { name: "same".to_string(), kind: I18nType::TransComp, ns: None },
            Member { name: "same".to_string(), kind: I18nType::HocWrapper, ns: Some("second".to_string()) },
        ],
    }];
    let store = Project::new()
        .resolve("@custom/i18n", "/modules/custom/index.ts")
        .file("/src/a.ts", vec![])
        .analyze(&["/src/a.ts"], vec![], Some(extend));
    let seeded = store.get_node("/modules/custom/index.ts").expect("the package is seeded");
    assert!(seeded.has_exported_i18n_methods());
    let names: Vec<&str> = seeded.exporting_members.iter().map(|e| e.name.as_str()).collect();
    assert_eq!(names, vec!["t", "same", "Translation", "i18n"]);
    let t = seeded.i18n_member("t").unwrap();
    assert_eq!((t.kind, t.ns.as_deref()), (I18nType::TMethod, None));
    let same = seeded.i18n_member("same").unwrap();
    assert_eq!((same.kind, same.ns.as_deref()), (I18nType::HocWrapper, Some("second")));
    assert_eq!(seeded.i18n_member("Translation").map(|m| m.kind), Some(I18nType::TranslationComp));
    assert_eq!(seeded.i18n_member("i18n").map(|m| m.kind), Some(I18nType::ObjectMemberT));
}

fn store_with_a_recorded_edge() -> NodeStore {
    let mut main = Node::new("/main.ts".to_string());
    main.insert_importing("./dep".to_string(), "/one.ts".to_string());
    let mut one = Node::new("/one.ts".to_string());
    one.insert_imports("/main.ts".to_string());
    let mut two = Node::new("/two.ts".to_string());
    two.insert_exporting("t".to_string(), Some(I18nMember { kind: I18nType::TMethod, ns: None }));
    NodeStore::new(vec![main, one, two])
}

#[test]
fn an_import_replaces_the_edge_of_its_specifier() {
    let mut store = store_with_a_recorded_edge();
    let tree = program(vec![]);
    let externals = compile_externals(&Vec::new()).unwrap();
    let answers = vec![Resolution { specifier: "./dep".to_string(), path: Some("/two.ts".to_string()) }];
    let mut walker = Walker::new(0, &tree, &externals, &answers, &store);
    walker.resolve_import(&mut store, "./dep", &vec!["t".to_string()]);
    assert!(walker.importing_collection.is_empty());
    let main = store.get_node("/main.ts").unwrap();
    assert_eq!(main.importing.len(), 1);
    assert_eq!(main.importing_target("./dep").map(|p| p.as_str()), Some("/two.ts"));
    assert!(main.has_i18n_source_imported());
    assert_eq!(store.get_node("/two.ts").unwrap().imports, vec!["/main.ts"]);
}

#[test]
fn an_import_of_other_names_replaces_the_edge_without_a_mark() {
    let mut store = store_with_a_recorded_edge();
    let tree = program(vec![]);
    let externals = compile_externals(&Vec::new()).unwrap();
    let answers = vec![Resolution { specifier: "./dep".to_string(), path: Some("/two.ts".to_string()) }];
    let mut walker = Walker::new(0, &tree, &externals, &answers, &store);
    walker.resolve_import(&mut store, "./dep", &vec!["other".to_string()]);
    let main = store.get_node("/main.ts").unwrap();
    assert_eq!(main.importing_target("./dep").map(|p| p.as_str()), Some("/two.ts"));
    assert!(!main.has_i18n_source_imported());
    walker.resolve_import(&mut store, "./dep", &vec!["*".to_string()]);
    assert!(store.get_node("/main.ts").unwrap().has_i18n_source_imported());
}

#[test]
fn a_seeded_external_replaces_the_edge_of_its_specifier() {
    let mut store = store_with_a_recorded_edge();
    let tree = program(vec![]);
    let externals = compile_externals(&vec!["^dep".to_string()]).unwrap();
    let answers = vec![
        Resolution { specifier: "dep".to_string(), path: Some("/two.ts".to_string()) },
        Resolution { specifier: "dep/plain".to_string(), path: Some("/one.ts".to_string()) },
    ];
    store.nodes[0].insert_importing("dep".to_string(), "/one.ts".to_string());
    let mut walker = Walker::new(0, &tree, &externals, &answers, &store);
    walker.resolve_import(&mut store, "dep/plain", &vec!["t".to_string()]);
    assert!(store.get_node("/main.ts").unwrap().importing_target("dep/plain").is_none());
    walker.resolve_import(&mut store, "dep", &vec!["t".to_string()]);
    let main = store.get_node("/main.ts").unwrap();
    assert_eq!(main.importing_target("dep").map(|p| p.as_str()), Some("/two.ts"));
    assert_eq!(main.importing_target("./dep").map(|p| p.as_str()), Some("/one.ts"));
    assert!(main.has_i18n_source_imported());
}
