//! Reading the text of an expression: literals, templates, constants that are
//! followed to their definition, and concatenations of those.

use crate::node::NodeView;
use crate::node_store::{importing_index, NodeStore};
use crate::post_collector::{resolve_export, resolve_export_in};
use crate::syntax::{NodeKind, SyntaxTree};
use crate::text::{opt_text, text_eq};
use vstd::prelude::*;

verus! {

/// How many definitions are followed one after the other inside one tree: as
/// many as the tree has symbols, which every chain without a loop fits in.
pub open spec fn chain_limit(tree: SyntaxTree) -> nat {
    tree.symbols.len() as nat
}

/// How many names are followed inside one module: two more than it has constants.
pub open spec fn module_limit(store: Seq<NodeView>, file: int) -> nat {
    let constants = store[file].module.locals.len();
    if constants < usize::MAX - 2 {
        (constants + 2) as nat
    } else {
        usize::MAX as nat
    }
}

/// The expression handed over as argument `k`, unless it is spread.
pub open spec fn argument_expression(tree: SyntaxTree, arguments: Seq<usize>, k: int) -> Option<usize> {
    if 0 <= k < arguments.len() && arguments[k] < tree.nodes.len() {
        match tree.nodes[arguments[k] as int].kind {
            NodeKind::Argument { value, spread } => if spread {
                None
            } else {
                Some(value)
            },
            _ => None,
        }
    } else {
        None
    }
}

/// The node that declares what reference `reference` resolves to.
pub open spec fn defined_node(tree: SyntaxTree, reference: usize) -> Option<usize> {
    match tree.references[reference as int].symbol {
        Some(symbol) => Some(tree.symbols[symbol as int].declaration),
        None => None,
    }
}

/// The node that contains the declaration of what `reference` resolves to.
pub open spec fn defined_parent_node(tree: SyntaxTree, reference: usize) -> Option<usize> {
    match defined_node(tree, reference) {
        Some(declaration) => tree.nodes[declaration as int].parent,
        None => None,
    }
}

/// Whether node `id` is a member access with the static property `name`.
pub open spec fn is_member_named(tree: SyntaxTree, id: usize, name: Seq<char>) -> bool {
    match tree.nodes[id as int].kind {
        NodeKind::Member { property: Some(property), .. } => property@ == name,
        _ => false,
    }
}

/// The first expression statement among `statements[from..]`.
pub open spec fn first_expression_statement(tree: SyntaxTree, statements: Seq<usize>, from: int) -> Option<
    usize,
>
    decreases statements.len() - from,
{
    if from < 0 || from >= statements.len() {
        None
    } else {
        match tree.nodes[statements[from] as int].kind {
            NodeKind::ExpressionStatement { expression } => Some(expression),
            _ => first_expression_statement(tree, statements, from + 1),
        }
    }
}

/// The text that the name imported by specifier node `specifier` stands for:
/// the constant that the imported module exports under that name.
pub open spec fn imported_text(tree: SyntaxTree, store: Seq<NodeView>, node: int, specifier: usize) -> Option<
    Seq<char>,
> {
    match (tree.nodes[specifier as int].kind, tree.nodes[specifier as int].parent) {
        (NodeKind::ImportSpecifier { imported, .. }, Some(parent)) => match tree.nodes[parent as int].kind {
            NodeKind::ImportDeclaration { source, .. } => match importing_index(store, node, source@) {
                Some(target) => resolve_export(
                    store,
                    target,
                    imported@,
                    false,
                    module_limit(store, target),
                ),
                None => None,
            },
            _ => None,
        },
        _ => None,
    }
}

/// The text of expression `id`, where it can be told without running the program.
///
/// * A string literal is its text; a template is its pieces with the texts of
///   the expressions between them.
/// * An identifier is the text of the initializer of the variable it names, or
///   of the constant it imports; `fuel` bounds how many identifiers are followed.
/// * `a + b` is the text of `a` followed by the text of `b`.
/// * `list.map(v => f(key))` is the text of `key`.
pub open spec fn text_of(tree: SyntaxTree, store: Seq<NodeView>, node: int, id: usize, fuel: nat) -> Option<
    Seq<char>,
>
    decreases fuel, tree.nodes.len() - id, 2nat, 0nat,
    when tree.wf() && id < tree.nodes.len()
{
    match tree.nodes[id as int].kind {
        NodeKind::StringLiteral { value } => Some(value@),
        NodeKind::TemplateLiteral { quasis, expressions } => if quasis.len() == 1
            && expressions.len() == 0 {
            Some(quasis[0]@)
        } else {
            template_text(tree, store, node, id, 0, fuel)
        },
        NodeKind::Identifier { reference, .. } => match defined_node(tree, reference) {
            Some(declaration) => match declared_text(tree, store, node, declaration, fuel) {
                Some(text) => Some(text),
                None => match tree.nodes[declaration as int].parent {
                    Some(parent) => declared_text(tree, store, node, parent, fuel),
                    None => None,
                },
            },
            None => None,
        },
        NodeKind::Binary { addition, left, right } => if addition {
            match (text_of(tree, store, node, left, fuel), text_of(tree, store, node, right, fuel)) {
                (Some(a), Some(b)) => Some(a + b),
                _ => None,
            }
        } else {
            None
        },
        NodeKind::Call { callee, arguments } => if is_member_named(tree, callee, "map"@) {
            mapped_text(tree, store, node, id, fuel)
        } else {
            None
        },
        _ => None,
    }
}

/// The pieces `from..` of template `id` with the texts of the expressions between them.
pub open spec fn template_text(
    tree: SyntaxTree,
    store: Seq<NodeView>,
    node: int,
    id: usize,
    from: int,
    fuel: nat,
) -> Option<Seq<char>>
    decreases fuel, tree.nodes.len() - id, 1nat, tree.nodes[id as int].kind->quasis.len() - from,
    when tree.wf() && id < tree.nodes.len() && tree.nodes[id as int].kind is TemplateLiteral
{
    let quasis = tree.nodes[id as int].kind->quasis;
    let expressions = tree.nodes[id as int].kind->TemplateLiteral_expressions;
    if from < 0 || from >= quasis.len() {
        Some(Seq::empty())
    } else {
        let hole = if from < expressions.len() {
            text_of(tree, store, node, expressions[from], fuel)
        } else {
            Some(Seq::empty())
        };
        match (hole, template_text(tree, store, node, id, from + 1, fuel)) {
            (Some(value), Some(rest)) => Some(quasis[from]@ + value + rest),
            _ => None,
        }
    }
}

/// The text that declaration node `declaration` gives to the name it declares.
pub open spec fn declared_text(
    tree: SyntaxTree,
    store: Seq<NodeView>,
    node: int,
    declaration: usize,
    fuel: nat,
) -> Option<Seq<char>>
    decreases fuel, 0nat, 0nat, 0nat,
    when tree.wf() && declaration < tree.nodes.len()
{
    match tree.nodes[declaration as int].kind {
        NodeKind::VariableDeclarator { init: Some(init), .. } => if fuel > 0 {
            text_of(tree, store, node, init, (fuel - 1) as nat)
        } else {
            None
        },
        NodeKind::ImportSpecifier { .. } => imported_text(tree, store, node, declaration),
        _ => None,
    }
}

/// The text of the key that the callback of `list.map(callback)` hands on: the
/// first argument of the call that is the callback's first expression statement.
pub open spec fn mapped_text(tree: SyntaxTree, store: Seq<NodeView>, node: int, call: usize, fuel: nat) -> Option<
    Seq<char>,
>
    decreases fuel, tree.nodes.len() - call, 1nat, 0nat,
    when tree.wf() && call < tree.nodes.len() && tree.nodes[call as int].kind is Call
{
    match argument_expression(tree, tree.nodes[call as int].kind->arguments@, 0) {
        Some(callback) => match tree.nodes[callback as int].kind {
            NodeKind::Arrow { body, .. } => match first_expression_statement(tree, body@, 0) {
                Some(expression) => if call < expression < tree.nodes.len() {
                    dynamic_key_text(tree, store, node, expression, fuel)
                } else {
                    None
                },
                None => None,
            },
            _ => None,
        },
        None => None,
    }
}

/// The text of the first argument of call `id`.
pub open spec fn dynamic_key_text(tree: SyntaxTree, store: Seq<NodeView>, node: int, id: usize, fuel: nat) -> Option<
    Seq<char>,
>
    decreases fuel, tree.nodes.len() - id, 3nat, 0nat,
    when tree.wf() && id < tree.nodes.len()
{
    match tree.nodes[id as int].kind {
        NodeKind::Call { arguments, .. } => match argument_expression(tree, arguments@, 0) {
            Some(key) => if id < key < tree.nodes.len() {
                text_of(tree, store, node, key, fuel)
            } else {
                None
            },
            None => None,
        },
        _ => None,
    }
}

/// The text of the property `ns` among `properties[from..]` of an object literal.
pub open spec fn ns_property_text(
    tree: SyntaxTree,
    store: Seq<NodeView>,
    node: int,
    properties: Seq<usize>,
    from: int,
) -> Option<Seq<char>>
    decreases properties.len() - from,
{
    if from < 0 || from >= properties.len() {
        None
    } else {
        let here = match tree.nodes[properties[from] as int].kind {
            NodeKind::Property { key: Some(key), value } => if key@ == "ns"@ && value
                < tree.nodes.len() {
                text_of(tree, store, node, value, chain_limit(tree))
            } else {
                None
            },
            _ => None,
        };
        match here {
            Some(text) => Some(text),
            None => ns_property_text(tree, store, node, properties, from + 1),
        }
    }
}

/// The namespace that the first argument of hook call `call` names: its text,
/// the text of the first element when it is an array, or of its property `ns`
/// when it is an object literal.
pub open spec fn hook_namespace(tree: SyntaxTree, store: Seq<NodeView>, node: int, call: usize) -> Option<
    Seq<char>,
> {
    match tree.nodes[call as int].kind {
        NodeKind::Call { arguments, .. } => match argument_expression(tree, arguments@, 0) {
            Some(first) => if first < tree.nodes.len() {
                match tree.nodes[first as int].kind {
                    NodeKind::Array { elements } => if elements.len() > 0 && elements[0]
                        < tree.nodes.len() {
                        text_of(tree, store, node, elements[0], chain_limit(tree))
                    } else {
                        None
                    },
                    NodeKind::Object { properties } => ns_property_text(
                        tree,
                        store,
                        node,
                        properties@,
                        0,
                    ),
                    _ => text_of(tree, store, node, first, chain_limit(tree)),
                }
            } else {
                None
            },
            None => None,
        },
        _ => None,
    }
}

/// What the reading of a file goes by: the tree of the file, the graph, and
/// the place of the file in the graph.
pub struct Scene {
    pub tree: SyntaxTree,
    pub store: Seq<NodeView>,
    pub node: int,
}

impl Scene {
    /// The tree is in order and the file is a node of the graph.
    pub open spec fn wf(self) -> bool {
        self.tree.wf() && 0 <= self.node < self.store.len()
    }

    /// The text of expression `id`.
    pub open spec fn text(self, id: usize) -> Option<Seq<char>> {
        text_of(self.tree, self.store, self.node, id, chain_limit(self.tree))
    }

    /// The kind of node `id`.
    pub open spec fn kind(self, id: usize) -> NodeKind {
        self.tree.nodes[id as int].kind
    }

    /// The node that contains node `id`.
    pub open spec fn parent(self, id: usize) -> Option<usize> {
        self.tree.nodes[id as int].parent
    }

    /// The node that contains the identifier of reference `k` of `symbol`.
    pub open spec fn reference_parent(self, symbol: usize, k: int) -> Option<usize> {
        let reference = self.tree.symbols[symbol as int].references[k];
        self.parent(self.tree.references[reference as int].node)
    }

    /// How many references `symbol` has.
    pub open spec fn reference_count(self, symbol: usize) -> int {
        self.tree.symbols[symbol as int].references.len() as int
    }
}

/// A tree together with the graph and the node of the graph that it is the file of.
pub struct WalkerUtils<'a> {
    pub tree: &'a SyntaxTree,
    pub store: &'a NodeStore,
    pub node: usize,
}

impl<'a> WalkerUtils<'a> {
    /// The tree is in order and the node is one of the store.
    pub open spec fn wf(&self) -> bool {
        self.tree.wf() && self.node < self.store.nodes.len()
    }

    /// What the reading goes by.
    pub open spec fn scene(&self) -> Scene {
        Scene { tree: *self.tree, store: self.store@, node: self.node as int }
    }

    pub fn new(tree: &'a SyntaxTree, store: &'a NodeStore, node: usize) -> (utils: Self)
        ensures
            utils.tree == tree,
            utils.store == store,
            utils.node == node,
    {
        Self { tree, store, node }
    }

    /// The expression handed over as argument `k`, unless it is spread.
    pub fn argument(&self, arguments: &Vec<usize>, k: usize) -> (value: Option<usize>)
        requires
            self.wf(),
        ensures
            value == argument_expression(*self.tree, arguments@, k as int),
            value matches Some(v) ==> v < self.tree.nodes.len(),
            value matches Some(v) ==> arguments[k as int] < v,
    {
        if k < arguments.len() && arguments[k] < self.tree.nodes.len() {
            match &self.tree.nodes[arguments[k]].kind {
                NodeKind::Argument { value, spread } => {
                    if *spread {
                        None
                    } else {
                        Some(*value)
                    }
                },
                _ => None,
            }
        } else {
            None
        }
    }

    /// The node that declares what reference `ref_id` resolves to.
    pub fn get_var_defined_node(&self, ref_id: usize) -> (declaration: Option<usize>)
        requires
            self.wf(),
            ref_id < self.tree.references.len(),
        ensures
            declaration == defined_node(*self.tree, ref_id),
            declaration matches Some(d) ==> d < self.tree.nodes.len(),
    {
        match self.tree.reference_symbol(ref_id) {
            Some(symbol) => Some(self.tree.symbol_declaration(symbol)),
            None => None,
        }
    }

    /// The node that contains the declaration of what `ref_id` resolves to.
    pub fn get_var_defined_parent_node(&self, ref_id: usize) -> (parent: Option<usize>)
        requires
            self.wf(),
            ref_id < self.tree.references.len(),
        ensures
            parent == defined_parent_node(*self.tree, ref_id),
            parent matches Some(p) ==> p < self.tree.nodes.len(),
    {
        match self.get_var_defined_node(ref_id) {
            Some(declaration) => self.tree.parent_node(declaration),
            None => None,
        }
    }

    /// Whether node `id` is a member access with the static property `name`.
    pub fn is_member_named(&self, id: usize, name: &str) -> (named: bool)
        requires
            id < self.tree.nodes.len(),
        ensures
            named == is_member_named(*self.tree, id, name@),
    {
        match &self.tree.nodes[id].kind {
            NodeKind::Member { property: Some(property), .. } => text_eq(property.as_str(), name),
            _ => false,
        }
    }

    /// How many definitions are followed one after the other.
    pub fn chain_limit(&self) -> (limit: usize)
        ensures
            limit == chain_limit(*self.tree),
    {
        self.tree.symbols.len()
    }

    /// The text of expression `expr`, where it can be told without running the program.
    pub fn read_str_expression(&self, expr: usize) -> (text: Option<String>)
        requires
            self.wf(),
            expr < self.tree.nodes.len(),
        ensures
            opt_text(text) == text_of(
                *self.tree,
                self.store@,
                self.node as int,
                expr,
                chain_limit(*self.tree),
            ),
    {
        self.read_str_bounded(expr, self.chain_limit())
    }

    /// The text of expression `expr`, following at most `fuel` identifiers in a row.
    pub fn read_str_bounded(&self, expr: usize, fuel: usize) -> (text: Option<String>)
        requires
            self.wf(),
            expr < self.tree.nodes.len(),
        ensures
            opt_text(text) == text_of(*self.tree, self.store@, self.node as int, expr, fuel as nat),
        decreases fuel, self.tree.nodes.len() - expr, 2nat,
    {
        match &self.tree.nodes[expr].kind {
            NodeKind::StringLiteral { value } => Some(value.clone()),
            NodeKind::TemplateLiteral { quasis, expressions } => {
                if quasis.len() == 1 && expressions.len() == 0 {
                    Some(quasis[0].clone())
                } else {
                    self.read_template(expr, fuel)
                }
            },
            NodeKind::Identifier { reference, .. } => {
                match self.get_var_defined_node(*reference) {
                    Some(declaration) => {
                        match self.read_declared(declaration, fuel) {
                            Some(text) => Some(text),
                            None => match self.tree.parent_node(declaration) {
                                Some(parent) => self.read_declared(parent, fuel),
                                None => None,
                            },
                        }
                    },
                    None => None,
                }
            },
            NodeKind::Binary { addition, left, right } => {
                if *addition {
                    match self.read_str_bounded(*left, fuel) {
                        Some(mut text) => match self.read_str_bounded(*right, fuel) {
                            Some(tail) => {
                                text.append(tail.as_str());
                                Some(text)
                            },
                            None => None,
                        },
                        None => None,
                    }
                } else {
                    None
                }
            },
            NodeKind::Call { callee, .. } => {
                if self.is_member_named(*callee, "map") {
                    self.read_mapped(expr, fuel)
                } else {
                    None
                }
            },
            _ => None,
        }
    }

    fn read_template(&self, id: usize, fuel: usize) -> (text: Option<String>)
        requires
            self.wf(),
            id < self.tree.nodes.len(),
            self.tree.nodes[id as int].kind is TemplateLiteral,
        ensures
            opt_text(text) == template_text(
                *self.tree,
                self.store@,
                self.node as int,
                id,
                0,
                fuel as nat,
            ),
        decreases fuel, self.tree.nodes.len() - id, 1nat,
    {
        let ghost whole = template_text(*self.tree, self.store@, self.node as int, id, 0, fuel as nat);
        match &self.tree.nodes[id].kind {
            NodeKind::TemplateLiteral { quasis, expressions } => {
                let mut text = String::new();
                let mut i: usize = 0;
                while i < quasis.len()
                    invariant
                        self.wf(),
                        id < self.tree.nodes.len(),
                        self.tree.nodes[id as int].kind == (NodeKind::TemplateLiteral {
                            quasis: *quasis,
                            expressions: *expressions,
                        }),
                        i <= quasis.len(),
                        whole == template_text(
                            *self.tree,
                            self.store@,
                            self.node as int,
                            id,
                            0,
                            fuel as nat,
                        ),
                        match template_text(
                            *self.tree,
                            self.store@,
                            self.node as int,
                            id,
                            i as int,
                            fuel as nat,
                        ) {
                            Some(rest) => whole == Some(text@ + rest),
                            None => whole is None,
                        },
                    decreases quasis.len() - i,
                {
                    let ghost before = text@;
                    text.append(quasis[i].as_str());
                    let ghost mut hole = Seq::<char>::empty();
                    if i < expressions.len() {
                        match self.read_str_bounded(expressions[i], fuel) {
                            Some(value) => {
                                text.append(value.as_str());
                                proof {
                                    hole = value@;
                                }
                            },
                            None => {
                                return None;
                            },
                        }
                    }
                    proof {
                        assert(text@ =~= before + quasis[i as int]@ + hole);
                        match template_text(
                            *self.tree,
                            self.store@,
                            self.node as int,
                            id,
                            i + 1,
                            fuel as nat,
                        ) {
                            Some(rest) => {
                                assert(before + (quasis[i as int]@ + hole + rest) =~= text@ + rest);
                            },
                            None => {},
                        }
                    }
                    i += 1;
                }
                assert(text@ + Seq::<char>::empty() =~= text@);
                Some(text)
            },
            _ => None,
        }
    }

    fn read_declared(&self, declaration: usize, fuel: usize) -> (text: Option<String>)
        requires
            self.wf(),
            declaration < self.tree.nodes.len(),
        ensures
            opt_text(text) == declared_text(
                *self.tree,
                self.store@,
                self.node as int,
                declaration,
                fuel as nat,
            ),
        decreases fuel, 0nat, 0nat,
    {
        match &self.tree.nodes[declaration].kind {
            NodeKind::VariableDeclarator { init: Some(init), .. } => {
                if fuel > 0 {
                    self.read_str_bounded(*init, fuel - 1)
                } else {
                    None
                }
            },
            NodeKind::ImportSpecifier { .. } => self.resolve_imported_value(declaration),
            _ => None,
        }
    }

    /// The text that the name imported by specifier node `specifier` stands for.
    pub fn resolve_imported_value(&self, specifier: usize) -> (text: Option<String>)
        requires
            self.wf(),
            specifier < self.tree.nodes.len(),
        ensures
            opt_text(text) == imported_text(*self.tree, self.store@, self.node as int, specifier),
    {
        match (&self.tree.nodes[specifier].kind, self.tree.parent_node(specifier)) {
            (NodeKind::ImportSpecifier { imported, .. }, Some(parent)) => {
                match &self.tree.nodes[parent].kind {
                    NodeKind::ImportDeclaration { source, .. } => {
                        match self.store.importing_node(self.node, source.as_str()) {
                            Some(target) => {
                                let constants = self.store.nodes[target].module.locals.len();
                                let limit = if constants < usize::MAX - 2 {
                                    constants + 2
                                } else {
                                    usize::MAX
                                };
                                resolve_export_in(
                                    self.store,
                                    target,
                                    imported.as_str(),
                                    false,
                                    limit,
                                )
                            },
                            None => None,
                        }
                    },
                    _ => None,
                }
            },
            _ => None,
        }
    }

    fn first_expression_statement(&self, statements: &Vec<usize>, owner: usize) -> (found: Option<
        usize,
    >)
        requires
            self.wf(),
            crate::syntax::all_after(owner as int, statements@, self.tree.nodes.len() as int),
        ensures
            found == first_expression_statement(*self.tree, statements@, 0),
            found matches Some(e) ==> owner < e < self.tree.nodes.len(),
    {
        let mut i: usize = 0;
        while i < statements.len()
            invariant
                self.wf(),
                crate::syntax::all_after(owner as int, statements@, self.tree.nodes.len() as int),
                i <= statements.len(),
                first_expression_statement(*self.tree, statements@, i as int)
                    == first_expression_statement(*self.tree, statements@, 0),
            decreases statements.len() - i,
        {
            match &self.tree.nodes[statements[i]].kind {
                NodeKind::ExpressionStatement { expression } => {
                    return Some(*expression);
                },
                _ => {},
            }
            i += 1;
        }
        None
    }

    fn read_mapped(&self, call: usize, fuel: usize) -> (text: Option<String>)
        requires
            self.wf(),
            call < self.tree.nodes.len(),
            self.tree.nodes[call as int].kind is Call,
        ensures
            opt_text(text) == mapped_text(
                *self.tree,
                self.store@,
                self.node as int,
                call,
                fuel as nat,
            ),
        decreases fuel, self.tree.nodes.len() - call, 1nat,
    {
        match &self.tree.nodes[call].kind {
            NodeKind::Call { arguments, .. } => match self.argument(arguments, 0) {
                Some(callback) => match &self.tree.nodes[callback].kind {
                    NodeKind::Arrow { body, .. } => {
                        match self.first_expression_statement(body, callback) {
                            Some(expression) => self.read_dynamic_bounded(expression, fuel),
                            None => None,
                        }
                    },
                    _ => None,
                },
                None => None,
            },
            _ => None,
        }
    }

    fn read_dynamic_bounded(&self, expr: usize, fuel: usize) -> (text: Option<String>)
        requires
            self.wf(),
            expr < self.tree.nodes.len(),
        ensures
            opt_text(text) == dynamic_key_text(
                *self.tree,
                self.store@,
                self.node as int,
                expr,
                fuel as nat,
            ),
        decreases fuel, self.tree.nodes.len() - expr, 3nat,
    {
        match &self.tree.nodes[expr].kind {
            NodeKind::Call { arguments, .. } => match self.argument(arguments, 0) {
                Some(key) => self.read_str_bounded(key, fuel),
                None => None,
            },
            _ => None,
        }
    }

    /// The text of the key that the callback of `list.map(callback)` hands on.
    pub fn read_dynamic_keys_from_map(&self, call: usize) -> (text: Option<String>)
        requires
            self.wf(),
            call < self.tree.nodes.len(),
            self.tree.nodes[call as int].kind is Call,
        ensures
            opt_text(text) == mapped_text(
                *self.tree,
                self.store@,
                self.node as int,
                call,
                chain_limit(*self.tree),
            ),
    {
        self.read_mapped(call, self.chain_limit())
    }

    /// The text of the first argument of `expr`, if `expr` is a call.
    pub fn read_dynamic_key_expression(&self, expr: usize) -> (text: Option<String>)
        requires
            self.wf(),
            expr < self.tree.nodes.len(),
        ensures
            opt_text(text) == dynamic_key_text(
                *self.tree,
                self.store@,
                self.node as int,
                expr,
                chain_limit(*self.tree),
            ),
    {
        self.read_dynamic_bounded(expr, self.chain_limit())
    }

    pub fn read_ns_property(&self, properties: &Vec<usize>, owner: usize) -> (text: Option<String>)
        requires
            self.wf(),
            crate::syntax::all_after(owner as int, properties@, self.tree.nodes.len() as int),
        ensures
            opt_text(text) == ns_property_text(
                *self.tree,
                self.store@,
                self.node as int,
                properties@,
                0,
            ),
    {
        let mut i: usize = 0;
        while i < properties.len()
            invariant
                self.wf(),
                crate::syntax::all_after(owner as int, properties@, self.tree.nodes.len() as int),
                i <= properties.len(),
                ns_property_text(*self.tree, self.store@, self.node as int, properties@, i as int)
                    == ns_property_text(*self.tree, self.store@, self.node as int, properties@, 0),
            decreases properties.len() - i,
        {
            match &self.tree.nodes[properties[i]].kind {
                NodeKind::Property { key: Some(key), value } => {
                    if text_eq(key.as_str(), "ns") && *value < self.tree.nodes.len() {
                        match self.read_str_expression(*value) {
                            Some(text) => {
                                return Some(text);
                            },
                            None => {},
                        }
                    }
                },
                _ => {},
            }
            i += 1;
        }
        None
    }

    /// The namespace that the first argument of hook call `call` names.
    pub fn read_hook_namespace_argument(&self, call: usize) -> (namespace: Option<String>)
        requires
            self.wf(),
            call < self.tree.nodes.len(),
        ensures
            opt_text(namespace) == hook_namespace(*self.tree, self.store@, self.node as int, call),
    {
        match &self.tree.nodes[call].kind {
            NodeKind::Call { arguments, .. } => match self.argument(arguments, 0) {
                Some(first) => match &self.tree.nodes[first].kind {
                    NodeKind::Array { elements } => {
                        if elements.len() > 0 && elements[0] < self.tree.nodes.len() {
                            self.read_str_expression(elements[0])
                        } else {
                            None
                        }
                    },
                    NodeKind::Object { properties } => self.read_ns_property(properties, first),
                    _ => self.read_str_expression(first),
                },
                None => None,
            },
            _ => None,
        }
    }
}

} // verus!
