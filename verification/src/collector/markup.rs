//! Reading the keys of markup: the `i18nKey` attribute of a component, the
//! function that a component takes as its child, and the component that a
//! higher-order function wraps.

use crate::collector::reading::read_t_arguments;
use crate::collector::walker::{names_translator, Extraction, Walker};
use crate::syntax::{all_after, NodeKind};
use crate::text::{clone_opt_text, opt_text, text_eq};
use crate::walk_utils::{argument_expression, Scene};
use vstd::prelude::*;

verus! {

/// The namespace that a key is recorded in when its call names none.
pub open spec fn namespace_or_default(namespace: Option<Seq<char>>) -> Seq<char> {
    match namespace {
        Some(text) => text,
        None => "default"@,
    }
}

/// The state after the attribute `id` of a component was read: the string
/// value of `i18nKey` is a key.
pub open spec fn trans_attribute(scene: Scene, state: Extraction, id: usize, namespace: Option<Seq<char>>) -> Extraction {
    match scene.kind(id) {
        NodeKind::JsxAttribute { name: Some(name), value: Some(value) } => if name@ == "i18nKey"@ {
            match scene.kind(value) {
                NodeKind::StringLiteral { value: key } => state.with_key(
                    namespace_or_default(namespace),
                    key@,
                ),
                _ => state,
            }
        } else {
            state
        },
        _ => state,
    }
}

/// The state after the attributes `from..` of a component were read.
pub open spec fn trans_attributes_from(
    scene: Scene,
    state: Extraction,
    attributes: Seq<usize>,
    namespace: Option<Seq<char>>,
    from: int,
) -> Extraction
    decreases attributes.len() - from,
{
    if from < 0 || from >= attributes.len() {
        state
    } else {
        trans_attributes_from(
            scene,
            trans_attribute(scene, state, attributes[from], namespace),
            attributes,
            namespace,
            from + 1,
        )
    }
}

/// The state after the opening element `opening` of a component was read.
pub open spec fn read_trans_jsx_opening_element(scene: Scene, state: Extraction, opening: usize, namespace: Option<Seq<char>>) -> Extraction {
    match scene.kind(opening) {
        NodeKind::JsxOpeningElement { attributes, .. } => trans_attributes_from(
            scene,
            state,
            attributes@,
            namespace,
            0,
        ),
        _ => state,
    }
}

/// The state after the element `element` of a component was read.
pub open spec fn read_trans_jsx_element(scene: Scene, state: Extraction, element: usize, namespace: Option<Seq<char>>) -> Extraction {
    match scene.kind(element) {
        NodeKind::JsxElement { opening, .. } => read_trans_jsx_opening_element(
            scene,
            state,
            opening,
            namespace,
        ),
        _ => state,
    }
}

/// The opening element that node `id` is, or is the element of.
pub open spec fn opening_of(scene: Scene, id: usize) -> Option<usize> {
    match scene.kind(id) {
        NodeKind::JsxOpeningElement { .. } => Some(id),
        NodeKind::JsxElement { opening, .. } => Some(opening),
        _ => None,
    }
}

/// The opening element found at node `at` or at the node that contains it.
pub open spec fn enclosing_opening(scene: Scene, at: Option<usize>) -> Option<usize> {
    match at {
        Some(first) => match opening_of(scene, first) {
            Some(opening) => Some(opening),
            None => match scene.parent(first) {
                Some(second) => opening_of(scene, second),
                None => None,
            },
        },
        None => None,
    }
}

/// The state after the uses of component `symbol` as a tag were read, from its reference `from` on.
pub open spec fn read_trans_component_from(
    scene: Scene,
    state: Extraction,
    symbol: usize,
    namespace: Option<Seq<char>>,
    from: int,
) -> Extraction
    decreases scene.reference_count(symbol) - from,
{
    if from < 0 || from >= scene.reference_count(symbol) {
        state
    } else {
        let next = match enclosing_opening(scene, scene.reference_parent(symbol, from)) {
            Some(opening) => read_trans_jsx_opening_element(scene, state, opening, namespace),
            None => state,
        };
        read_trans_component_from(scene, next, symbol, namespace, from + 1)
    }
}

/// The state after every use of component `symbol` with an `i18nKey` was read.
pub open spec fn read_trans_component(scene: Scene, state: Extraction, symbol: usize, namespace: Option<Seq<char>>) -> Extraction {
    read_trans_component_from(scene, state, symbol, namespace, 0)
}

/// The children of an element or a fragment.
pub open spec fn markup_children(scene: Scene, owner: usize) -> Seq<usize> {
    match scene.kind(owner) {
        NodeKind::JsxElement { children, .. } => children@,
        NodeKind::JsxFragment { children } => children@,
        _ => Seq::empty(),
    }
}

/// The statements of the body of a function.
pub open spec fn body_statements(scene: Scene, owner: usize) -> Seq<usize> {
    match scene.kind(owner) {
        NodeKind::Arrow { body, .. } => body@,
        NodeKind::Function { body: Some(body), .. } => body@,
        _ => Seq::empty(),
    }
}

/// Whether `callee` names a translator: as an identifier, or as the member of an object.
pub open spec fn translator_callee(scene: Scene, state: Extraction, callee: usize) -> bool {
    match scene.kind(callee) {
        NodeKind::Identifier { .. } => names_translator(scene, state, callee),
        NodeKind::Member { property: Some(property), .. } => state.knows_t_name(property@),
        _ => false,
    }
}

/// The state after expression `id` inside a component was searched for
/// translator calls: the body of an arrow function, markup and its children,
/// and a call of a translator itself.
pub open spec fn read_translation_expression(scene: Scene, state: Extraction, id: usize, namespace: Option<Seq<char>>) -> Extraction
    decreases scene.tree.nodes.len() - id, 3nat, 0int,
    when scene.tree.wf() && id < scene.tree.nodes.len()
{
    match scene.kind(id) {
        NodeKind::Arrow { .. } => read_statements_from(scene, state, id, namespace, 0),
        NodeKind::JsxElement { .. } => read_children_from(scene, state, id, namespace, 0),
        NodeKind::JsxFragment { .. } => read_children_from(scene, state, id, namespace, 0),
        NodeKind::Call { callee, .. } => if translator_callee(scene, state, callee) {
            read_t_arguments(scene, state, id, namespace)
        } else {
            state
        },
        _ => state,
    }
}

/// The state after statement `id` was searched for translator calls: an
/// expression statement and a returned expression are searched.
pub open spec fn read_statement_for_t_calls(scene: Scene, state: Extraction, id: usize, namespace: Option<Seq<char>>) -> Extraction
    decreases scene.tree.nodes.len() - id, 4nat, 0int,
    when scene.tree.wf() && id < scene.tree.nodes.len()
{
    match scene.kind(id) {
        NodeKind::ExpressionStatement { expression } => read_translation_expression(
            scene,
            state,
            expression,
            namespace,
        ),
        NodeKind::Return { argument: Some(argument) } => read_translation_expression(
            scene,
            state,
            argument,
            namespace,
        ),
        _ => state,
    }
}

/// The state after the statements `from..` of the body of function `owner` were searched.
pub open spec fn read_statements_from(
    scene: Scene,
    state: Extraction,
    owner: usize,
    namespace: Option<Seq<char>>,
    from: int,
) -> Extraction
    decreases scene.tree.nodes.len() - owner, 2nat, body_statements(scene, owner).len() - from,
    when scene.tree.wf() && owner < scene.tree.nodes.len()
{
    let statements = body_statements(scene, owner);
    if from < 0 || from >= statements.len() {
        state
    } else {
        read_statements_from(
            scene,
            read_statement_for_t_calls(scene, state, statements[from], namespace),
            owner,
            namespace,
            from + 1,
        )
    }
}

/// The state after the child `id` of markup was searched: an element is
/// searched through its children, `{expression}` through its expression.
pub open spec fn read_child(scene: Scene, state: Extraction, id: usize, namespace: Option<Seq<char>>) -> Extraction
    decreases scene.tree.nodes.len() - id, 4nat, 0int,
    when scene.tree.wf() && id < scene.tree.nodes.len()
{
    match scene.kind(id) {
        NodeKind::JsxElement { .. } => read_children_from(scene, state, id, namespace, 0),
        NodeKind::JsxExpressionContainer { expression: Some(expression) } => read_translation_expression(
            scene,
            state,
            expression,
            namespace,
        ),
        _ => state,
    }
}

/// The state after the children `from..` of the element or fragment `owner` were searched.
pub open spec fn read_children_from(
    scene: Scene,
    state: Extraction,
    owner: usize,
    namespace: Option<Seq<char>>,
    from: int,
) -> Extraction
    decreases scene.tree.nodes.len() - owner, 2nat, markup_children(scene, owner).len() - from,
    when scene.tree.wf() && owner < scene.tree.nodes.len()
{
    let children = markup_children(scene, owner);
    if from < 0 || from >= children.len() {
        state
    } else {
        read_children_from(
            scene,
            read_child(scene, state, children[from], namespace),
            owner,
            namespace,
            from + 1,
        )
    }
}

/// The state after the children of element `element` were searched for translator calls.
pub open spec fn read_translation_jsx_element(scene: Scene, state: Extraction, element: usize, namespace: Option<Seq<char>>) -> Extraction {
    match scene.kind(element) {
        NodeKind::JsxElement { .. } => read_children_from(scene, state, element, namespace, 0),
        _ => state,
    }
}

/// The state after the children of fragment `fragment` were searched for translator calls.
pub open spec fn read_translation_jsx_fragment(scene: Scene, state: Extraction, fragment: usize, namespace: Option<Seq<char>>) -> Extraction {
    match scene.kind(fragment) {
        NodeKind::JsxFragment { .. } => read_children_from(scene, state, fragment, namespace, 0),
        _ => state,
    }
}

/// The element that node `id` is, or is the opening element of.
pub open spec fn element_of(scene: Scene, id: usize) -> Option<usize> {
    match scene.kind(id) {
        NodeKind::JsxElement { .. } => Some(id),
        NodeKind::JsxOpeningElement { .. } => match scene.parent(id) {
            Some(parent) => match scene.kind(parent) {
                NodeKind::JsxElement { .. } => Some(parent),
                _ => None,
            },
            None => None,
        },
        _ => None,
    }
}

/// The element found at node `at` or at the node that contains it.
pub open spec fn enclosing_element(scene: Scene, at: Option<usize>) -> Option<usize> {
    match at {
        Some(first) => match element_of(scene, first) {
            Some(element) => Some(element),
            None => match scene.parent(first) {
                Some(second) => element_of(scene, second),
                None => None,
            },
        },
        None => None,
    }
}

/// The state after the uses of the render-prop component `symbol` were read,
/// from its reference `from` on.
pub open spec fn read_translation_component_from(
    scene: Scene,
    state: Extraction,
    symbol: usize,
    namespace: Option<Seq<char>>,
    from: int,
) -> Extraction
    decreases scene.reference_count(symbol) - from,
{
    if from < 0 || from >= scene.reference_count(symbol) {
        state
    } else {
        let next = match enclosing_element(scene, scene.reference_parent(symbol, from)) {
            Some(element) => read_translation_jsx_element(scene, state, element, namespace),
            None => state,
        };
        read_translation_component_from(scene, next, symbol, namespace, from + 1)
    }
}

/// The state after every use of the render-prop component `symbol` was read.
pub open spec fn read_translation_component(scene: Scene, state: Extraction, symbol: usize, namespace: Option<Seq<char>>) -> Extraction {
    read_translation_component_from(scene, state, symbol, namespace, 0)
}

/// The state after the body of the component declared by node `declaration`
/// was searched: a variable bound to a function, or a function declaration.
pub open spec fn component_body(scene: Scene, state: Extraction, declaration: usize, namespace: Option<Seq<char>>) -> Extraction {
    match scene.kind(declaration) {
        NodeKind::VariableDeclarator { init: Some(init), .. } => match scene.kind(init) {
            NodeKind::Arrow { .. } => read_statements_from(scene, state, init, namespace, 0),
            NodeKind::Function { .. } => read_statements_from(scene, state, init, namespace, 0),
            _ => state,
        },
        NodeKind::Function { .. } => read_statements_from(scene, state, declaration, namespace, 0),
        _ => state,
    }
}

/// The state after the component that reference `reference` names was
/// searched; nothing is searched beyond depth 10.
pub open spec fn read_component_for_t_calls(
    scene: Scene,
    state: Extraction,
    reference: usize,
    namespace: Option<Seq<char>>,
    depth: nat,
) -> Extraction {
    if depth > 10 {
        state
    } else {
        match scene.tree.references[reference as int].symbol {
            Some(symbol) => component_body(
                scene,
                state,
                scene.tree.symbols[symbol as int].declaration,
                namespace,
            ),
            None => state,
        }
    }
}

/// Whether node `id` declares the variable `name` as an arrow function.
pub open spec fn declares_component(scene: Scene, id: usize, name: Seq<char>) -> Option<usize> {
    match scene.kind(id) {
        NodeKind::VariableDeclarator { id: target, init: Some(init) } => match (
            scene.kind(init),
            scene.kind(target),
        ) {
            (NodeKind::Arrow { .. }, NodeKind::BindingIdentifier { name: bound, .. }) => if bound@
                == name {
                Some(init)
            } else {
                None
            },
            _ => None,
        },
        _ => None,
    }
}

/// The state after the first arrow function bound to `name` at or after node
/// `from` was searched.
pub open spec fn find_component_definition(
    scene: Scene,
    state: Extraction,
    name: Seq<char>,
    namespace: Option<Seq<char>>,
    from: int,
) -> Extraction
    decreases scene.tree.nodes.len() - from,
{
    if from < 0 || from >= scene.tree.nodes.len() {
        state
    } else {
        match declares_component(scene, from as usize, name) {
            Some(init) => read_statements_from(scene, state, init, namespace, 0),
            None => find_component_definition(scene, state, name, namespace, from + 1),
        }
    }
}

/// The state after call `call` of a higher-order wrapper was read: its own
/// argument names the component, or, when it has none, the argument of the
/// call that it is the callee of.
pub open spec fn read_hoc_call_expression(scene: Scene, state: Extraction, call: usize, namespace: Option<Seq<char>>) -> Extraction {
    match scene.kind(call) {
        NodeKind::Call { arguments, .. } => if arguments.len() > 0 {
            match argument_expression(scene.tree, arguments@, 0) {
                Some(component) => match scene.kind(component) {
                    NodeKind::Identifier { reference, .. } => read_component_for_t_calls(
                        scene,
                        state,
                        reference,
                        namespace,
                        0,
                    ),
                    _ => state,
                },
                None => state,
            }
        } else {
            match scene.parent(call) {
                Some(outer) => match scene.kind(outer) {
                    NodeKind::Call { arguments: applied, .. } => match argument_expression(
                        scene.tree,
                        applied@,
                        0,
                    ) {
                        Some(component) => match scene.kind(component) {
                            NodeKind::Identifier { name, .. } => find_component_definition(
                                scene,
                                state,
                                name@,
                                namespace,
                                0,
                            ),
                            _ => state,
                        },
                        None => state,
                    },
                    _ => state,
                },
                None => state,
            }
        },
        _ => state,
    }
}

/// The state after the calls of the higher-order wrapper `symbol` were read,
/// from its reference `from` on.
pub open spec fn read_hoc_wrapper_from(
    scene: Scene,
    state: Extraction,
    symbol: usize,
    namespace: Option<Seq<char>>,
    from: int,
) -> Extraction
    decreases scene.reference_count(symbol) - from,
{
    if from < 0 || from >= scene.reference_count(symbol) {
        state
    } else {
        let next = match scene.reference_parent(symbol, from) {
            Some(parent) => match scene.kind(parent) {
                NodeKind::Call { .. } => read_hoc_call_expression(scene, state, parent, namespace),
                _ => state,
            },
            None => state,
        };
        read_hoc_wrapper_from(scene, next, symbol, namespace, from + 1)
    }
}

/// The state after every call of the higher-order wrapper `symbol` was read.
pub open spec fn read_hoc_wrapper(scene: Scene, state: Extraction, symbol: usize, namespace: Option<Seq<char>>) -> Extraction {
    read_hoc_wrapper_from(scene, state, symbol, namespace, 0)
}

impl<'a> Walker<'a> {
    /// Reads the attributes of the opening element of a component.
    pub fn read_trans_jsx_opening_element(&mut self, opening_element: usize, defined_ns: Option<
        String,
    >)
        requires
            old(self).wf(),
            opening_element < old(self).walk_utils.tree.nodes.len(),
        ensures
            old(self).becomes(
                final(self),
                read_trans_jsx_opening_element(
                    old(self).scene(),
                    old(self)@,
                    opening_element,
                    opt_text(defined_ns),
                ),
            ),
    {
        let tree = self.walk_utils.tree;
        let ghost scene = self.scene();
        let ghost ns = opt_text(defined_ns);
        match &tree.nodes[opening_element].kind {
            NodeKind::JsxOpeningElement { attributes, .. } => {
                let mut i: usize = 0;
                while i < attributes.len()
                    invariant
                        self.wf(),
                        self.walk_utils == old(self).walk_utils,
                        tree == self.walk_utils.tree,
                        scene == self.scene(),
                        ns == opt_text(defined_ns),
                        all_after(opening_element as int, attributes@, tree.nodes.len() as int),
                        i <= attributes.len(),
                        trans_attributes_from(scene, self@, attributes@, ns, i as int)
                            == trans_attributes_from(scene, old(self)@, attributes@, ns, 0),
                    decreases attributes.len() - i,
                {
                    match &tree.nodes[attributes[i]].kind {
                        NodeKind::JsxAttribute { name: Some(name), value: Some(value) } => {
                            if text_eq(name.as_str(), "i18nKey") {
                                match &tree.nodes[*value].kind {
                                    NodeKind::StringLiteral { value: key } => {
                                        let namespace = match &defined_ns {
                                            Some(text) => text.clone(),
                                            None => "default".to_owned(),
                                        };
                                        self.add_key(namespace.as_str(), key.clone());
                                    },
                                    _ => {},
                                }
                            }
                        },
                        _ => {},
                    }
                    i += 1;
                }
            },
            _ => {},
        }
    }

    /// Reads the attributes of a component element.
    pub fn read_trans_jsx_element(&mut self, jsx_element: usize, defined_ns: Option<String>)
        requires
            old(self).wf(),
            jsx_element < old(self).walk_utils.tree.nodes.len(),
        ensures
            old(self).becomes(
                final(self),
                read_trans_jsx_element(
                    old(self).scene(),
                    old(self)@,
                    jsx_element,
                    opt_text(defined_ns),
                ),
            ),
    {
        match &self.walk_utils.tree.nodes[jsx_element].kind {
            NodeKind::JsxElement { opening, .. } => {
                self.read_trans_jsx_opening_element(*opening, defined_ns);
            },
            _ => {},
        }
    }

    fn opening_of(&self, id: usize) -> (opening: Option<usize>)
        requires
            self.wf(),
            id < self.walk_utils.tree.nodes.len(),
        ensures
            opening == opening_of(self.scene(), id),
            opening matches Some(o) ==> o < self.walk_utils.tree.nodes.len(),
    {
        match &self.walk_utils.tree.nodes[id].kind {
            NodeKind::JsxOpeningElement { .. } => Some(id),
            NodeKind::JsxElement { opening, .. } => Some(*opening),
            _ => None,
        }
    }

    fn enclosing_opening(&self, at: Option<usize>) -> (opening: Option<usize>)
        requires
            self.wf(),
            at matches Some(n) ==> n < self.walk_utils.tree.nodes.len(),
        ensures
            opening == enclosing_opening(self.scene(), at),
            opening matches Some(o) ==> o < self.walk_utils.tree.nodes.len(),
    {
        match at {
            Some(first) => match self.opening_of(first) {
                Some(opening) => Some(opening),
                None => match self.walk_utils.tree.parent_node(first) {
                    Some(second) => self.opening_of(second),
                    None => None,
                },
            },
            None => None,
        }
    }

    /// Reads every use of the component `symbol_id` that carries an `i18nKey`.
    pub fn read_trans_component(&mut self, symbol_id: usize, defined_ns: Option<String>)
        requires
            old(self).wf(),
            symbol_id < old(self).walk_utils.tree.symbols.len(),
        ensures
            old(self).becomes(
                final(self),
                read_trans_component(old(self).scene(), old(self)@, symbol_id, opt_text(defined_ns)),
            ),
    {
        let tree = self.walk_utils.tree;
        let ghost scene = self.scene();
        let ghost ns = opt_text(defined_ns);
        let count = tree.symbols[symbol_id].references.len();
        let mut k: usize = 0;
        while k < count
            invariant
                self.wf(),
                self.walk_utils == old(self).walk_utils,
                tree == self.walk_utils.tree,
                scene == self.scene(),
                ns == opt_text(defined_ns),
                symbol_id < tree.symbols.len(),
                count == tree.symbols[symbol_id as int].references.len(),
                k <= count,
                read_trans_component_from(scene, self@, symbol_id, ns, k as int)
                    == read_trans_component_from(scene, old(self)@, symbol_id, ns, 0),
            decreases count - k,
        {
            let parent = self.reference_parent(symbol_id, k);
            match self.enclosing_opening(parent) {
                Some(opening) => {
                    self.read_trans_jsx_opening_element(opening, clone_opt_text(&defined_ns));
                },
                None => {},
            }
            k += 1;
        }
    }

    fn translator_callee(&self, callee: usize) -> (named: bool)
        requires
            self.wf(),
            callee < self.walk_utils.tree.nodes.len(),
        ensures
            named == translator_callee(self.scene(), self@, callee),
    {
        match &self.walk_utils.tree.nodes[callee].kind {
            NodeKind::Identifier { .. } => self.is_t_identifier(callee),
            NodeKind::Member { property: Some(property), .. } => self.is_known_t_name(
                property.as_str(),
            ),
            _ => false,
        }
    }

    /// Searches expression `expr` inside a component for translator calls.
    pub fn read_translation_expression(&mut self, expr: usize, defined_ns: Option<String>)
        requires
            old(self).wf(),
            expr < old(self).walk_utils.tree.nodes.len(),
        ensures
            old(self).becomes(
                final(self),
                read_translation_expression(
                    old(self).scene(),
                    old(self)@,
                    expr,
                    opt_text(defined_ns),
                ),
            ),
        decreases old(self).walk_utils.tree.nodes.len() - expr, 3nat,
    {
        let tree = self.walk_utils.tree;
        match &tree.nodes[expr].kind {
            NodeKind::Arrow { .. } => {
                self.read_statements(expr, defined_ns);
            },
            NodeKind::JsxElement { .. } => {
                self.read_children(expr, defined_ns);
            },
            NodeKind::JsxFragment { .. } => {
                self.read_children(expr, defined_ns);
            },
            NodeKind::Call { callee, .. } => {
                if self.translator_callee(*callee) {
                    self.read_t_arguments(expr, defined_ns);
                }
            },
            _ => {},
        }
    }

    /// Searches statement `stmt` for translator calls.
    pub fn read_statement_for_t_calls(&mut self, stmt: usize, defined_ns: Option<String>)
        requires
            old(self).wf(),
            stmt < old(self).walk_utils.tree.nodes.len(),
        ensures
            old(self).becomes(
                final(self),
                read_statement_for_t_calls(
                    old(self).scene(),
                    old(self)@,
                    stmt,
                    opt_text(defined_ns),
                ),
            ),
        decreases old(self).walk_utils.tree.nodes.len() - stmt, 4nat,
    {
        match &self.walk_utils.tree.nodes[stmt].kind {
            NodeKind::ExpressionStatement { expression } => {
                self.read_translation_expression(*expression, defined_ns);
            },
            NodeKind::Return { argument: Some(argument) } => {
                self.read_translation_expression(*argument, defined_ns);
            },
            _ => {},
        }
    }

    fn read_statements(&mut self, owner: usize, defined_ns: Option<String>)
        requires
            old(self).wf(),
            owner < old(self).walk_utils.tree.nodes.len(),
        ensures
            old(self).becomes(
                final(self),
                read_statements_from(old(self).scene(), old(self)@, owner, opt_text(defined_ns), 0),
            ),
        decreases old(self).walk_utils.tree.nodes.len() - owner, 2nat,
    {
        let tree = self.walk_utils.tree;
        let ghost scene = self.scene();
        let ghost ns = opt_text(defined_ns);
        let statements: Option<&Vec<usize>> = match &tree.nodes[owner].kind {
            NodeKind::Arrow { body, .. } => Some(body),
            NodeKind::Function { body: Some(body), .. } => Some(body),
            _ => None,
        };
        match statements {
            Some(list) => {
                let mut i: usize = 0;
                while i < list.len()
                    invariant
                        self.wf(),
                        self.walk_utils == old(self).walk_utils,
                        tree == self.walk_utils.tree,
                        scene == self.scene(),
                        ns == opt_text(defined_ns),
                        owner < tree.nodes.len(),
                        list@ == body_statements(scene, owner),
                        all_after(owner as int, list@, tree.nodes.len() as int),
                        i <= list.len(),
                        read_statements_from(scene, self@, owner, ns, i as int)
                            == read_statements_from(scene, old(self)@, owner, ns, 0),
                    decreases list.len() - i,
                {
                    self.read_statement_for_t_calls(list[i], clone_opt_text(&defined_ns));
                    i += 1;
                }
            },
            None => {
                assert(body_statements(scene, owner).len() == 0);
            },
        }
    }

    fn read_child(&mut self, child: usize, defined_ns: Option<String>)
        requires
            old(self).wf(),
            child < old(self).walk_utils.tree.nodes.len(),
        ensures
            old(self).becomes(
                final(self),
                read_child(old(self).scene(), old(self)@, child, opt_text(defined_ns)),
            ),
        decreases old(self).walk_utils.tree.nodes.len() - child, 4nat,
    {
        match &self.walk_utils.tree.nodes[child].kind {
            NodeKind::JsxElement { .. } => {
                self.read_children(child, defined_ns);
            },
            NodeKind::JsxExpressionContainer { expression: Some(expression) } => {
                self.read_translation_expression(*expression, defined_ns);
            },
            _ => {},
        }
    }

    fn read_children(&mut self, owner: usize, defined_ns: Option<String>)
        requires
            old(self).wf(),
            owner < old(self).walk_utils.tree.nodes.len(),
        ensures
            old(self).becomes(
                final(self),
                read_children_from(old(self).scene(), old(self)@, owner, opt_text(defined_ns), 0),
            ),
        decreases old(self).walk_utils.tree.nodes.len() - owner, 2nat,
    {
        let tree = self.walk_utils.tree;
        let ghost scene = self.scene();
        let ghost ns = opt_text(defined_ns);
        let children: Option<&Vec<usize>> = match &tree.nodes[owner].kind {
            NodeKind::JsxElement { children, .. } => Some(children),
            NodeKind::JsxFragment { children } => Some(children),
            _ => None,
        };
        match children {
            Some(list) => {
                let mut i: usize = 0;
                while i < list.len()
                    invariant
                        self.wf(),
                        self.walk_utils == old(self).walk_utils,
                        tree == self.walk_utils.tree,
                        scene == self.scene(),
                        ns == opt_text(defined_ns),
                        owner < tree.nodes.len(),
                        list@ == markup_children(scene, owner),
                        all_after(owner as int, list@, tree.nodes.len() as int),
                        i <= list.len(),
                        read_children_from(scene, self@, owner, ns, i as int) == read_children_from(
                            scene,
                            old(self)@,
                            owner,
                            ns,
                            0,
                        ),
                    decreases list.len() - i,
                {
                    self.read_child(list[i], clone_opt_text(&defined_ns));
                    i += 1;
                }
            },
            None => {
                assert(markup_children(scene, owner).len() == 0);
            },
        }
    }

    /// Searches the children of element `jsx_element` for translator calls.
    pub fn read_translation_jsx_element(&mut self, jsx_element: usize, defined_ns: Option<String>)
        requires
            old(self).wf(),
            jsx_element < old(self).walk_utils.tree.nodes.len(),
        ensures
            old(self).becomes(
                final(self),
                read_translation_jsx_element(
                    old(self).scene(),
                    old(self)@,
                    jsx_element,
                    opt_text(defined_ns),
                ),
            ),
    {
        match &self.walk_utils.tree.nodes[jsx_element].kind {
            NodeKind::JsxElement { .. } => {
                self.read_children(jsx_element, defined_ns);
            },
            _ => {},
        }
    }

    /// Searches the children of fragment `jsx_fragment` for translator calls.
    pub fn read_translation_jsx_fragment(&mut self, jsx_fragment: usize, defined_ns: Option<
        String,
    >)
        requires
            old(self).wf(),
            jsx_fragment < old(self).walk_utils.tree.nodes.len(),
        ensures
            old(self).becomes(
                final(self),
                read_translation_jsx_fragment(
                    old(self).scene(),
                    old(self)@,
                    jsx_fragment,
                    opt_text(defined_ns),
                ),
            ),
    {
        match &self.walk_utils.tree.nodes[jsx_fragment].kind {
            NodeKind::JsxFragment { .. } => {
                self.read_children(jsx_fragment, defined_ns);
            },
            _ => {},
        }
    }

    fn element_of(&self, id: usize) -> (element: Option<usize>)
        requires
            self.wf(),
            id < self.walk_utils.tree.nodes.len(),
        ensures
            element == element_of(self.scene(), id),
            element matches Some(e) ==> e < self.walk_utils.tree.nodes.len(),
    {
        let tree = self.walk_utils.tree;
        match &tree.nodes[id].kind {
            NodeKind::JsxElement { .. } => Some(id),
            NodeKind::JsxOpeningElement { .. } => match tree.parent_node(id) {
                Some(parent) => match &tree.nodes[parent].kind {
                    NodeKind::JsxElement { .. } => Some(parent),
                    _ => None,
                },
                None => None,
            },
            _ => None,
        }
    }

    fn enclosing_element(&self, at: Option<usize>) -> (element: Option<usize>)
        requires
            self.wf(),
            at matches Some(n) ==> n < self.walk_utils.tree.nodes.len(),
        ensures
            element == enclosing_element(self.scene(), at),
            element matches Some(e) ==> e < self.walk_utils.tree.nodes.len(),
    {
        match at {
            Some(first) => match self.element_of(first) {
                Some(element) => Some(element),
                None => match self.walk_utils.tree.parent_node(first) {
                    Some(second) => self.element_of(second),
                    None => None,
                },
            },
            None => None,
        }
    }

    /// Reads every use of the render-prop component `symbol_id`.
    pub fn read_translation_component(&mut self, symbol_id: usize, defined_ns: Option<String>)
        requires
            old(self).wf(),
            symbol_id < old(self).walk_utils.tree.symbols.len(),
        ensures
            old(self).becomes(
                final(self),
                read_translation_component(
                    old(self).scene(),
                    old(self)@,
                    symbol_id,
                    opt_text(defined_ns),
                ),
            ),
    {
        let tree = self.walk_utils.tree;
        let ghost scene = self.scene();
        let ghost ns = opt_text(defined_ns);
        let count = tree.symbols[symbol_id].references.len();
        let mut k: usize = 0;
        while k < count
            invariant
                self.wf(),
                self.walk_utils == old(self).walk_utils,
                tree == self.walk_utils.tree,
                scene == self.scene(),
                ns == opt_text(defined_ns),
                symbol_id < tree.symbols.len(),
                count == tree.symbols[symbol_id as int].references.len(),
                k <= count,
                read_translation_component_from(scene, self@, symbol_id, ns, k as int)
                    == read_translation_component_from(scene, old(self)@, symbol_id, ns, 0),
            decreases count - k,
        {
            let parent = self.reference_parent(symbol_id, k);
            match self.enclosing_element(parent) {
                Some(element) => {
                    self.read_translation_jsx_element(element, clone_opt_text(&defined_ns));
                },
                None => {},
            }
            k += 1;
        }
    }

    fn component_body(&mut self, declaration: usize, defined_ns: Option<String>)
        requires
            old(self).wf(),
            declaration < old(self).walk_utils.tree.nodes.len(),
        ensures
            old(self).becomes(
                final(self),
                component_body(old(self).scene(), old(self)@, declaration, opt_text(defined_ns)),
            ),
    {
        let tree = self.walk_utils.tree;
        match &tree.nodes[declaration].kind {
            NodeKind::VariableDeclarator { init: Some(init), .. } => match &tree.nodes[*init].kind {
                NodeKind::Arrow { .. } => {
                    self.read_statements(*init, defined_ns);
                },
                NodeKind::Function { .. } => {
                    self.read_statements(*init, defined_ns);
                },
                _ => {},
            },
            NodeKind::Function { .. } => {
                self.read_statements(declaration, defined_ns);
            },
            _ => {},
        }
    }

    /// Searches the component that reference `ref_id` names for translator calls.
    pub fn read_component_for_t_calls(&mut self, ref_id: usize, defined_ns: Option<String>)
        requires
            old(self).wf(),
            ref_id < old(self).walk_utils.tree.references.len(),
        ensures
            old(self).becomes(
                final(self),
                read_component_for_t_calls(
                    old(self).scene(),
                    old(self)@,
                    ref_id,
                    opt_text(defined_ns),
                    0,
                ),
            ),
    {
        self.read_component_for_t_calls_with_depth(ref_id, defined_ns, 0);
    }

    /// Searches the component that reference `ref_id` names, unless `depth` is beyond 10.
    pub fn read_component_for_t_calls_with_depth(
        &mut self,
        ref_id: usize,
        defined_ns: Option<String>,
        depth: usize,
    )
        requires
            old(self).wf(),
            ref_id < old(self).walk_utils.tree.references.len(),
        ensures
            old(self).becomes(
                final(self),
                read_component_for_t_calls(
                    old(self).scene(),
                    old(self)@,
                    ref_id,
                    opt_text(defined_ns),
                    depth as nat,
                ),
            ),
    {
        if depth > 10 {
            return ;
        }
        let tree = self.walk_utils.tree;
        match tree.reference_symbol(ref_id) {
            Some(symbol) => {
                let declaration = tree.symbol_declaration(symbol);
                self.component_body(declaration, defined_ns);
            },
            None => {},
        }
    }

    fn declares_component(&self, id: usize, name: &str) -> (init: Option<usize>)
        requires
            self.wf(),
            id < self.walk_utils.tree.nodes.len(),
        ensures
            init == declares_component(self.scene(), id, name@),
            init matches Some(i) ==> i < self.walk_utils.tree.nodes.len(),
    {
        let tree = self.walk_utils.tree;
        match &tree.nodes[id].kind {
            NodeKind::VariableDeclarator { id: target, init: Some(init) } => {
                match (&tree.nodes[*init].kind, &tree.nodes[*target].kind) {
                    (NodeKind::Arrow { .. }, NodeKind::BindingIdentifier { name: bound, .. }) => {
                        if text_eq(bound.as_str(), name) {
                            Some(*init)
                        } else {
                            None
                        }
                    },
                    _ => None,
                }
            },
            _ => None,
        }
    }

    /// Searches the first arrow function bound to `component_name` for translator calls.
    pub fn find_component_definition_and_read_t_calls(
        &mut self,
        component_name: &str,
        defined_ns: Option<String>,
    )
        requires
            old(self).wf(),
        ensures
            old(self).becomes(
                final(self),
                find_component_definition(
                    old(self).scene(),
                    old(self)@,
                    component_name@,
                    opt_text(defined_ns),
                    0,
                ),
            ),
    {
        let tree = self.walk_utils.tree;
        let ghost scene = self.scene();
        let ghost ns = opt_text(defined_ns);
        let mut i: usize = 0;
        while i < tree.nodes.len()
            invariant
                self.wf(),
                self.walk_utils == old(self).walk_utils,
                self@ == old(self)@,
                tree == self.walk_utils.tree,
                scene == self.scene(),
                ns == opt_text(defined_ns),
                i <= tree.nodes.len(),
                find_component_definition(scene, self@, component_name@, ns, i as int)
                    == find_component_definition(scene, old(self)@, component_name@, ns, 0),
            decreases tree.nodes.len() - i,
        {
            match self.declares_component(i, component_name) {
                Some(init) => {
                    self.read_statements(init, defined_ns);
                    return ;
                },
                None => {},
            }
            i += 1;
        }
    }

    /// Reads call `call` of a higher-order wrapper.
    pub fn read_hoc_call_expression(&mut self, call: usize, defined_ns: Option<String>)
        requires
            old(self).wf(),
            call < old(self).walk_utils.tree.nodes.len(),
        ensures
            old(self).becomes(
                final(self),
                read_hoc_call_expression(old(self).scene(), old(self)@, call, opt_text(defined_ns)),
            ),
    {
        let tree = self.walk_utils.tree;
        match &tree.nodes[call].kind {
            NodeKind::Call { arguments, .. } => {
                if arguments.len() > 0 {
                    match self.walk_utils.argument(arguments, 0) {
                        Some(component) => match &tree.nodes[component].kind {
                            NodeKind::Identifier { reference, .. } => {
                                self.read_component_for_t_calls(*reference, defined_ns);
                            },
                            _ => {},
                        },
                        None => {},
                    }
                } else {
                    match tree.parent_node(call) {
                        Some(outer) => match &tree.nodes[outer].kind {
                            NodeKind::Call { arguments: applied, .. } => {
                                match self.walk_utils.argument(applied, 0) {
                                    Some(component) => match &tree.nodes[component].kind {
                                        NodeKind::Identifier { name, .. } => {
                                            self.find_component_definition_and_read_t_calls(
                                                name.as_str(),
                                                defined_ns,
                                            );
                                        },
                                        _ => {},
                                    },
                                    None => {},
                                }
                            },
                            _ => {},
                        },
                        None => {},
                    }
                }
            },
            _ => {},
        }
    }

    /// Reads every call of the higher-order wrapper `symbol_id`.
    pub fn read_hoc_wrapper(&mut self, symbol_id: usize, defined_ns: Option<String>)
        requires
            old(self).wf(),
            symbol_id < old(self).walk_utils.tree.symbols.len(),
        ensures
            old(self).becomes(
                final(self),
                read_hoc_wrapper(old(self).scene(), old(self)@, symbol_id, opt_text(defined_ns)),
            ),
    {
        let tree = self.walk_utils.tree;
        let ghost scene = self.scene();
        let ghost ns = opt_text(defined_ns);
        let count = tree.symbols[symbol_id].references.len();
        let mut k: usize = 0;
        while k < count
            invariant
                self.wf(),
                self.walk_utils == old(self).walk_utils,
                tree == self.walk_utils.tree,
                scene == self.scene(),
                ns == opt_text(defined_ns),
                symbol_id < tree.symbols.len(),
                count == tree.symbols[symbol_id as int].references.len(),
                k <= count,
                read_hoc_wrapper_from(scene, self@, symbol_id, ns, k as int)
                    == read_hoc_wrapper_from(scene, old(self)@, symbol_id, ns, 0),
            decreases count - k,
        {
            match self.reference_parent(symbol_id, k) {
                Some(parent) => match &tree.nodes[parent].kind {
                    NodeKind::Call { .. } => {
                        self.read_hoc_call_expression(parent, clone_opt_text(&defined_ns));
                    },
                    _ => {},
                },
                None => {},
            }
            k += 1;
        }
    }
}

} // verus!
