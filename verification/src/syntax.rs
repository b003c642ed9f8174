//! A plain model of one parsed module: its syntax nodes in source order, and the
//! table of symbols and references that binds identifiers to declarations.
//!
//! Nodes live in one vector and name each other by index. A node always stands
//! before the nodes it contains, so walking down a tree moves to larger indices
//! and walking up through `parent` moves to smaller ones.

use vstd::prelude::*;

verus! {

/// What a node is, with the parts of it that the analysis reads.
#[allow(inconsistent_fields)]
pub enum NodeKind {
    /// `'text'`
    StringLiteral { value: String },
    /// `` `a${x}b` ``: the raw text pieces and the expressions between them.
    TemplateLiteral { quasis: Vec<String>, expressions: Vec<usize> },
    /// A name that is read; `reference` is its entry in the reference table.
    Identifier { name: String, reference: usize },
    /// `left <op> right`; `addition` tells whether the operator is `+`.
    Binary { addition: bool, left: usize, right: usize },
    /// `callee(arguments)`; every argument is an `Argument` node.
    Call { callee: usize, arguments: Vec<usize> },
    /// One argument of a call; `spread` marks `...value`.
    Argument { value: usize, spread: bool },
    /// `object.property` or `object['property']`; `property` is the name when it is static.
    Member { object: usize, property: Option<String> },
    /// `(params) => body`; `expression` marks a body that is a single expression.
    Arrow { params: Vec<usize>, body: Vec<usize>, expression: bool },
    /// `function name(params) { body }`, as a declaration or an expression.
    Function { name: Option<usize>, params: Vec<usize>, body: Option<Vec<usize>>, expression: bool },
    /// `[elements]`
    Array { elements: Vec<usize> },
    /// `{ properties }`
    Object { properties: Vec<usize> },
    /// `key: value` inside an object literal; `key` is the name when it is a plain identifier.
    Property { key: Option<String>, value: usize },
    /// `<opening>children</closing>`
    JsxElement { opening: usize, children: Vec<usize> },
    /// `<name attributes>`; `name` is the identifier node when the tag is a plain identifier.
    JsxOpeningElement { name: Option<usize>, attributes: Vec<usize> },
    /// `name="value"`; `name` is set when the attribute name is a plain identifier.
    JsxAttribute { name: Option<String>, value: Option<usize> },
    /// `<>children</>`
    JsxFragment { children: Vec<usize> },
    /// `{expression}` among markup children; `None` for `{}`.
    JsxExpressionContainer { expression: Option<usize> },
    /// `expression;`
    ExpressionStatement { expression: usize },
    /// `return argument;`
    Return { argument: Option<usize> },
    /// `const a = 1, b = 2;`
    VariableDeclaration { declarations: Vec<usize> },
    /// `id = init` inside a variable declaration.
    VariableDeclarator { id: usize, init: Option<usize> },
    /// A name that is bound; `symbol` is its entry in the symbol table.
    BindingIdentifier { name: String, symbol: usize },
    /// `{ a, b: c }` as a binding target.
    ObjectPattern { properties: Vec<usize> },
    /// `key: value` inside an object pattern; `key` is the name when it is a plain identifier.
    BindingProperty { key: Option<String>, value: usize },
    /// `[a, b]` as a binding target: the targets that are written, in order.
    /// A place that is left empty, as in `[, b]`, binds nothing and has no entry.
    ArrayPattern { elements: Vec<usize> },
    /// `left = right` as a binding target with a default.
    AssignmentPattern { left: usize, right: usize },
    /// The whole module.
    Program { body: Vec<usize> },
    /// `import specifiers from 'source'`; `specifiers` is `None` for `import 'source'`.
    ImportDeclaration { source: String, specifiers: Option<Vec<usize>> },
    /// `imported as local`
    ImportSpecifier { imported: String, local: usize },
    /// `local` in `import local from 'source'`
    ImportDefaultSpecifier { local: usize },
    /// `* as local`
    ImportNamespaceSpecifier { local: usize },
    /// `import(source)`
    ImportExpression { source: usize },
    /// `export { specifiers } from 'source'` or `export declaration`.
    ExportNamed { specifiers: Vec<usize>, source: Option<String>, declaration: Option<usize> },
    /// `local_name as exported`; `local` is the identifier node when the
    /// specifier reads a binding of this module.
    ExportSpecifier { local: Option<usize>, local_name: String, exported: String },
    /// `export default declaration`
    ExportDefault { declaration: usize },
    /// `export * from 'source'`
    ExportAll { source: String },
    /// Anything else; only its place in the tree matters.
    Other { children: Vec<usize> },
}

/// A node with the node that contains it.
pub struct SyntaxNode {
    pub kind: NodeKind,
    pub parent: Option<usize>,
}

/// One use of a name: the identifier node, and the symbol it resolves to, if any.
pub struct Reference {
    pub node: usize,
    pub symbol: Option<usize>,
}

/// One binding: the node that declares it and the references that resolve to it.
pub struct Symbol {
    pub declaration: usize,
    pub references: Vec<usize>,
}

/// A parsed module.
pub struct SyntaxTree {
    pub nodes: Vec<SyntaxNode>,
    pub references: Vec<Reference>,
    pub symbols: Vec<Symbol>,
}

/// `child` is a node that stands after node `id`.
pub open spec fn after(id: int, child: usize, len: int) -> bool {
    id < child < len
}

/// `child`, when there is one, stands after node `id`.
pub open spec fn opt_after(id: int, child: Option<usize>, len: int) -> bool {
    match child {
        Some(c) => id < c < len,
        None => true,
    }
}

/// Every index of `children` is a node that stands after node `id`.
pub open spec fn all_after(id: int, children: Seq<usize>, len: int) -> bool {
    forall|k: int| 0 <= k < children.len() ==> id < #[trigger] children[k] < len
}

/// Every index of `items` is below `len`.
pub open spec fn all_below(items: Seq<usize>, len: int) -> bool {
    forall|k: int| 0 <= k < items.len() ==> #[trigger] items[k] < len
}

/// The indices held by `kind`, as node `id`, stay inside the tables.
pub open spec fn kind_wf(kind: NodeKind, id: int, nodes: int, references: int, symbols: int) -> bool {
    match kind {
        NodeKind::StringLiteral { .. } => true,
        NodeKind::TemplateLiteral { expressions, .. } => all_after(id, expressions@, nodes),
        NodeKind::Identifier { reference, .. } => reference < references,
        NodeKind::Binary { left, right, .. } => after(id, left, nodes) && after(id, right, nodes),
        NodeKind::Call { callee, arguments } => after(id, callee, nodes) && all_after(
            id,
            arguments@,
            nodes,
        ),
        NodeKind::Argument { value, .. } => after(id, value, nodes),
        NodeKind::Member { object, .. } => after(id, object, nodes),
        NodeKind::Arrow { params, body, .. } => all_after(id, params@, nodes) && all_after(
            id,
            body@,
            nodes,
        ),
        NodeKind::Function { name, params, body, .. } => {
            &&& opt_after(id, name, nodes)
            &&& all_after(id, params@, nodes)
            &&& (body matches Some(statements) ==> all_after(id, statements@, nodes))
        },
        NodeKind::Array { elements } => all_after(id, elements@, nodes),
        NodeKind::Object { properties } => all_after(id, properties@, nodes),
        NodeKind::Property { value, .. } => after(id, value, nodes),
        NodeKind::JsxElement { opening, children } => after(id, opening, nodes) && all_after(
            id,
            children@,
            nodes,
        ),
        NodeKind::JsxOpeningElement { name, attributes } => opt_after(id, name, nodes)
            && all_after(id, attributes@, nodes),
        NodeKind::JsxAttribute { value, .. } => opt_after(id, value, nodes),
        NodeKind::JsxFragment { children } => all_after(id, children@, nodes),
        NodeKind::JsxExpressionContainer { expression } => opt_after(id, expression, nodes),
        NodeKind::ExpressionStatement { expression } => after(id, expression, nodes),
        NodeKind::Return { argument } => opt_after(id, argument, nodes),
        NodeKind::VariableDeclaration { declarations } => all_after(id, declarations@, nodes),
        NodeKind::VariableDeclarator { id: target, init } => after(id, target, nodes) && opt_after(
            id,
            init,
            nodes,
        ),
        NodeKind::BindingIdentifier { symbol, .. } => symbol < symbols,
        NodeKind::ObjectPattern { properties } => all_after(id, properties@, nodes),
        NodeKind::BindingProperty { value, .. } => after(id, value, nodes),
        NodeKind::ArrayPattern { elements } => all_after(id, elements@, nodes),
        NodeKind::AssignmentPattern { left, right } => after(id, left, nodes) && after(
            id,
            right,
            nodes,
        ),
        NodeKind::Program { body } => all_after(id, body@, nodes),
        NodeKind::ImportDeclaration { specifiers, .. } => (specifiers matches Some(list)
            ==> all_after(id, list@, nodes)),
        NodeKind::ImportSpecifier { local, .. } => after(id, local, nodes),
        NodeKind::ImportDefaultSpecifier { local } => after(id, local, nodes),
        NodeKind::ImportNamespaceSpecifier { local } => after(id, local, nodes),
        NodeKind::ImportExpression { source } => after(id, source, nodes),
        NodeKind::ExportNamed { specifiers, declaration, .. } => all_after(id, specifiers@, nodes)
            && opt_after(id, declaration, nodes),
        NodeKind::ExportSpecifier { local, .. } => opt_after(id, local, nodes),
        NodeKind::ExportDefault { declaration } => after(id, declaration, nodes),
        NodeKind::ExportAll { .. } => true,
        NodeKind::Other { children } => all_after(id, children@, nodes),
    }
}

/// Node `id` of `nodes` is in order: its parent stands before it and its parts after it.
pub open spec fn node_wf(node: SyntaxNode, id: int, nodes: int, references: int, symbols: int) -> bool {
    &&& kind_wf(node.kind, id, nodes, references, symbols)
    &&& (node.parent matches Some(p) ==> p < id)
}

/// A reference names a node and, when resolved, a symbol.
pub open spec fn reference_wf(reference: Reference, nodes: int, symbols: int) -> bool {
    &&& reference.node < nodes
    &&& (reference.symbol matches Some(s) ==> s < symbols)
}

/// A symbol names its declaring node and lists references.
pub open spec fn symbol_wf(symbol: Symbol, nodes: int, references: int) -> bool {
    &&& symbol.declaration < nodes
    &&& all_below(symbol.references@, references)
}

/// The three tables agree with each other.
pub open spec fn tables_wf(
    nodes: Seq<SyntaxNode>,
    references: Seq<Reference>,
    symbols: Seq<Symbol>,
) -> bool {
    &&& forall|i: int|
        0 <= i < nodes.len() ==> node_wf(
            #[trigger] nodes[i],
            i,
            nodes.len() as int,
            references.len() as int,
            symbols.len() as int,
        )
    &&& forall|r: int|
        0 <= r < references.len() ==> reference_wf(
            #[trigger] references[r],
            nodes.len() as int,
            symbols.len() as int,
        )
    &&& forall|s: int|
        0 <= s < symbols.len() ==> symbol_wf(
            #[trigger] symbols[s],
            nodes.len() as int,
            references.len() as int,
        )
}

fn check_after(id: usize, child: usize, len: usize) -> (ok: bool)
    ensures
        ok == after(id as int, child, len as int),
{
    id < child && child < len
}

fn check_opt_after(id: usize, child: &Option<usize>, len: usize) -> (ok: bool)
    ensures
        ok == opt_after(id as int, *child, len as int),
{
    match child {
        Some(c) => id < *c && *c < len,
        None => true,
    }
}

fn check_all_after(id: usize, children: &Vec<usize>, len: usize) -> (ok: bool)
    ensures
        ok == all_after(id as int, children@, len as int),
{
    let mut k: usize = 0;
    while k < children.len()
        invariant
            k <= children.len(),
            forall|j: int| 0 <= j < k ==> id < #[trigger] children[j] < len,
        decreases children.len() - k,
    {
        if !(id < children[k] && children[k] < len) {
            return false;
        }
        k += 1;
    }
    true
}

fn check_all_below(items: &Vec<usize>, len: usize) -> (ok: bool)
    ensures
        ok == all_below(items@, len as int),
{
    let mut k: usize = 0;
    while k < items.len()
        invariant
            k <= items.len(),
            forall|j: int| 0 <= j < k ==> #[trigger] items[j] < len,
        decreases items.len() - k,
    {
        if items[k] >= len {
            return false;
        }
        k += 1;
    }
    true
}

fn check_kind(kind: &NodeKind, id: usize, nodes: usize, references: usize, symbols: usize) -> (ok:
    bool)
    ensures
        ok == kind_wf(*kind, id as int, nodes as int, references as int, symbols as int),
{
    match kind {
        NodeKind::StringLiteral { .. } => true,
        NodeKind::TemplateLiteral { expressions, .. } => check_all_after(id, expressions, nodes),
        NodeKind::Identifier { reference, .. } => *reference < references,
        NodeKind::Binary { left, right, .. } => check_after(id, *left, nodes) && check_after(
            id,
            *right,
            nodes,
        ),
        NodeKind::Call { callee, arguments } => check_after(id, *callee, nodes) && check_all_after(
            id,
            arguments,
            nodes,
        ),
        NodeKind::Argument { value, .. } => check_after(id, *value, nodes),
        NodeKind::Member { object, .. } => check_after(id, *object, nodes),
        NodeKind::Arrow { params, body, .. } => check_all_after(id, params, nodes)
            && check_all_after(id, body, nodes),
        NodeKind::Function { name, params, body, .. } => {
            let body_ok = match body {
                Some(statements) => check_all_after(id, statements, nodes),
                None => true,
            };
            check_opt_after(id, name, nodes) && check_all_after(id, params, nodes) && body_ok
        },
        NodeKind::Array { elements } => check_all_after(id, elements, nodes),
        NodeKind::Object { properties } => check_all_after(id, properties, nodes),
        NodeKind::Property { value, .. } => check_after(id, *value, nodes),
        NodeKind::JsxElement { opening, children } => check_after(id, *opening, nodes)
            && check_all_after(id, children, nodes),
        NodeKind::JsxOpeningElement { name, attributes } => check_opt_after(id, name, nodes)
            && check_all_after(id, attributes, nodes),
        NodeKind::JsxAttribute { value, .. } => check_opt_after(id, value, nodes),
        NodeKind::JsxFragment { children } => check_all_after(id, children, nodes),
        NodeKind::JsxExpressionContainer { expression } => check_opt_after(id, expression, nodes),
        NodeKind::ExpressionStatement { expression } => check_after(id, *expression, nodes),
        NodeKind::Return { argument } => check_opt_after(id, argument, nodes),
        NodeKind::VariableDeclaration { declarations } => check_all_after(id, declarations, nodes),
        NodeKind::VariableDeclarator { id: target, init } => check_after(id, *target, nodes)
            && check_opt_after(id, init, nodes),
        NodeKind::BindingIdentifier { symbol, .. } => *symbol < symbols,
        NodeKind::ObjectPattern { properties } => check_all_after(id, properties, nodes),
        NodeKind::BindingProperty { value, .. } => check_after(id, *value, nodes),
        NodeKind::ArrayPattern { elements } => check_all_after(id, elements, nodes),
        NodeKind::AssignmentPattern { left, right } => check_after(id, *left, nodes)
            && check_after(id, *right, nodes),
        NodeKind::Program { body } => check_all_after(id, body, nodes),
        NodeKind::ImportDeclaration { specifiers, .. } => match specifiers {
            Some(list) => check_all_after(id, list, nodes),
            None => true,
        },
        NodeKind::ImportSpecifier { local, .. } => check_after(id, *local, nodes),
        NodeKind::ImportDefaultSpecifier { local } => check_after(id, *local, nodes),
        NodeKind::ImportNamespaceSpecifier { local } => check_after(id, *local, nodes),
        NodeKind::ImportExpression { source } => check_after(id, *source, nodes),
        NodeKind::ExportNamed { specifiers, declaration, .. } => check_all_after(
            id,
            specifiers,
            nodes,
        ) && check_opt_after(id, declaration, nodes),
        NodeKind::ExportSpecifier { local, .. } => check_opt_after(id, local, nodes),
        NodeKind::ExportDefault { declaration } => check_after(id, *declaration, nodes),
        NodeKind::ExportAll { .. } => true,
        NodeKind::Other { children } => check_all_after(id, children, nodes),
    }
}

impl SyntaxTree {
    /// The tables agree with each other: every index points into its table, a
    /// node's parts stand after it and its parent before it.
    pub open spec fn wf(&self) -> bool {
        tables_wf(self.nodes@, self.references@, self.symbols@)
    }

    /// Puts the three tables together, if they agree with each other.
    pub fn new(nodes: Vec<SyntaxNode>, references: Vec<Reference>, symbols: Vec<Symbol>) -> (tree:
        Option<SyntaxTree>)
        ensures
            tree is Some <==> tables_wf(nodes@, references@, symbols@),
            tree matches Some(t) ==> t.nodes == nodes && t.references == references && t.symbols
                == symbols,
    {
        let tree = SyntaxTree { nodes, references, symbols };
        if tree.is_wf() {
            Some(tree)
        } else {
            None
        }
    }

    /// Checks `wf` at run time.
    pub fn is_wf(&self) -> (ok: bool)
        ensures
            ok == self.wf(),
    {
        let n = self.nodes.len();
        let r = self.references.len();
        let s = self.symbols.len();
        let mut i: usize = 0;
        while i < n
            invariant
                i <= n,
                n == self.nodes.len(),
                r == self.references.len(),
                s == self.symbols.len(),
                forall|j: int|
                    0 <= j < i ==> node_wf(#[trigger] self.nodes[j], j, n as int, r as int, s as int),
            decreases n - i,
        {
            let node = &self.nodes[i];
            let parent_ok = match node.parent {
                Some(p) => p < i,
                None => true,
            };
            if !(check_kind(&node.kind, i, n, r, s) && parent_ok) {
                assert(!node_wf(self.nodes[i as int], i as int, n as int, r as int, s as int));
                return false;
            }
            i += 1;
        }
        let mut j: usize = 0;
        while j < r
            invariant
                j <= r,
                n == self.nodes.len(),
                r == self.references.len(),
                s == self.symbols.len(),
                forall|k: int|
                    0 <= k < j ==> reference_wf(#[trigger] self.references[k], n as int, s as int),
            decreases r - j,
        {
            let reference = &self.references[j];
            let symbol_ok = match reference.symbol {
                Some(symbol) => symbol < s,
                None => true,
            };
            if !(reference.node < n && symbol_ok) {
                assert(!reference_wf(self.references[j as int], n as int, s as int));
                return false;
            }
            j += 1;
        }
        let mut k: usize = 0;
        while k < s
            invariant
                k <= s,
                n == self.nodes.len(),
                r == self.references.len(),
                s == self.symbols.len(),
                forall|m: int|
                    0 <= m < k ==> symbol_wf(#[trigger] self.symbols[m], n as int, r as int),
            decreases s - k,
        {
            let symbol = &self.symbols[k];
            if !(symbol.declaration < n && check_all_below(&symbol.references, r)) {
                assert(!symbol_wf(self.symbols[k as int], n as int, r as int));
                return false;
            }
            k += 1;
        }
        true
    }

    /// The kind of node `id`.
    pub fn kind(&self, id: usize) -> (kind: &NodeKind)
        requires
            id < self.nodes.len(),
        ensures
            *kind == self.nodes[id as int].kind,
    {
        &self.nodes[id].kind
    }

    /// The node that contains node `id`.
    pub fn parent_node(&self, id: usize) -> (parent: Option<usize>)
        requires
            self.wf(),
            id < self.nodes.len(),
        ensures
            parent == self.nodes[id as int].parent,
            parent matches Some(p) ==> p < id,
    {
        self.nodes[id].parent
    }

    /// The symbol that reference `reference` resolves to.
    pub fn reference_symbol(&self, reference: usize) -> (symbol: Option<usize>)
        requires
            self.wf(),
            reference < self.references.len(),
        ensures
            symbol == self.references[reference as int].symbol,
            symbol matches Some(s) ==> s < self.symbols.len(),
    {
        self.references[reference].symbol
    }

    /// The node that declares `symbol`.
    pub fn symbol_declaration(&self, symbol: usize) -> (declaration: usize)
        requires
            self.wf(),
            symbol < self.symbols.len(),
        ensures
            declaration == self.symbols[symbol as int].declaration,
            declaration < self.nodes.len(),
    {
        self.symbols[symbol].declaration
    }
}

} // verus!
