//! Reading the arguments of translator calls: the key, also where it is put
//! together from a list of values, and the namespace.

use crate::collector::walker::{Extraction, Walker};
use crate::post_collector::KeyPath;
use crate::syntax::NodeKind;
use crate::text::{clone_opt_text, opt_text, text_concat, text_eq};
use crate::walk_utils::{
    argument_expression, defined_node, is_member_named, ns_property_text, Scene,
};
use vstd::prelude::*;

verus! {

/// The namespace of translator call `call`: what the property `ns` of its
/// second argument names, else the namespace of the binding, else `default`.
pub open spec fn call_namespace(scene: Scene, call: usize, namespace: Option<Seq<char>>) -> Seq<char> {
    let explicit = match scene.kind(call) {
        NodeKind::Call { arguments, .. } => match argument_expression(scene.tree, arguments@, 1) {
            Some(options) => if options < scene.tree.nodes.len() {
                match scene.kind(options) {
                    NodeKind::Object { properties } => ns_property_text(
                        scene.tree,
                        scene.store,
                        scene.node,
                        properties@,
                        0,
                    ),
                    _ => None,
                }
            } else {
                None
            },
            None => None,
        },
        _ => None,
    };
    match explicit {
        Some(text) => text,
        None => match namespace {
            Some(text) => text,
            None => "default"@,
        },
    }
}

/// The texts of the string literals among `elements[from..]`.
pub open spec fn string_elements(scene: Scene, elements: Seq<usize>, from: int) -> Seq<Seq<char>>
    decreases elements.len() - from,
{
    if from < 0 || from >= elements.len() {
        Seq::empty()
    } else {
        let rest = string_elements(scene, elements, from + 1);
        match scene.kind(elements[from]) {
            NodeKind::StringLiteral { value } => seq![value@] + rest,
            _ => rest,
        }
    }
}

/// The string literals of the array that expression `id` is, or that the
/// variable it names was bound to; `None` without any. At most `fuel`
/// variables are followed.
pub open spec fn array_values(scene: Scene, id: usize, fuel: nat) -> Option<Seq<Seq<char>>>
    decreases fuel,
{
    match scene.kind(id) {
        NodeKind::Identifier { reference, .. } => match defined_node(scene.tree, reference) {
            Some(declaration) => match scene.kind(declaration) {
                NodeKind::VariableDeclarator { init: Some(init), .. } => if fuel > 0 {
                    array_values(scene, init, (fuel - 1) as nat)
                } else {
                    None
                },
                _ => None,
            },
            None => None,
        },
        NodeKind::Array { elements } => {
            let values = string_elements(scene, elements@, 0);
            if values.len() == 0 {
                None
            } else {
                Some(values)
            }
        },
        _ => None,
    }
}

/// Whether the first parameter of arrow function `id` is the plain name `name`.
pub open spec fn first_parameter_named(scene: Scene, id: usize, name: Seq<char>) -> bool {
    match scene.kind(id) {
        NodeKind::Arrow { params, .. } => params.len() > 0 && match scene.kind(params[0]) {
            NodeKind::BindingIdentifier { name: parameter, .. } => parameter@ == name,
            _ => false,
        },
        _ => false,
    }
}

/// The values that node `id` runs the name `name` over, if `id` is a call
/// `list.map(name => ...)` with a list of string literals.
pub open spec fn mapped_values(scene: Scene, id: usize, name: Seq<char>) -> Option<Seq<Seq<char>>> {
    match scene.kind(id) {
        NodeKind::Call { callee, arguments } => if is_member_named(scene.tree, callee, "map"@) {
            match array_values(
                scene,
                scene.kind(callee)->object,
                crate::walk_utils::chain_limit(scene.tree),
            ) {
                Some(values) => match argument_expression(scene.tree, arguments@, 0) {
                    Some(callback) => if first_parameter_named(scene, callback, name) {
                        Some(values)
                    } else {
                        None
                    },
                    None => None,
                },
                None => None,
            }
        } else {
            None
        },
        _ => None,
    }
}

/// The values of the first call at or after node `from` that runs `name` over a list.
pub open spec fn map_parameter_values(scene: Scene, name: Seq<char>, from: int) -> Option<
    Seq<Seq<char>>,
>
    decreases scene.tree.nodes.len() - from,
{
    if from < 0 || from >= scene.tree.nodes.len() {
        None
    } else {
        match mapped_values(scene, from as usize, name) {
            Some(values) => Some(values),
            None => map_parameter_values(scene, name, from + 1),
        }
    }
}

/// `prefix` put before each of `values[from..]`.
pub open spec fn prefixed(prefix: Seq<char>, values: Seq<Seq<char>>, from: int) -> Seq<Seq<char>>
    decreases values.len() - from,
{
    if from < 0 || from >= values.len() {
        Seq::empty()
    } else {
        seq![prefix + values[from]] + prefixed(prefix, values, from + 1)
    }
}

/// The values that expression `id` can take, if it is a name that a `map` call runs over a list.
pub open spec fn variable_values(scene: Scene, id: usize) -> Option<Seq<Seq<char>>> {
    match scene.kind(id) {
        NodeKind::Identifier { name, .. } => map_parameter_values(scene, name@, 0),
        _ => None,
    }
}

/// The keys of `left + right`, where `left` has a text and `right` runs over a list.
pub open spec fn dynamic_pattern(scene: Scene, left: usize, right: usize) -> Option<Seq<Seq<char>>> {
    match (scene.text(left), variable_values(scene, right)) {
        (Some(prefix), Some(values)) => Some(prefixed(prefix, values, 0)),
        _ => None,
    }
}

/// The keys that the concatenation `id` stands for: its one text, or one key
/// for each value that its right side runs over.
pub open spec fn dynamic_keys(scene: Scene, id: usize) -> Option<Seq<Seq<char>>> {
    match scene.kind(id) {
        NodeKind::Binary { addition, left, right } => if addition {
            match scene.text(id) {
                Some(text) => Some(seq![text]),
                None => dynamic_pattern(scene, left, right),
            }
        } else {
            None
        },
        _ => None,
    }
}

/// The state after the arguments of translator call `call` were read.
///
/// The first argument is the key: its text is recorded in the namespace of the
/// call; a concatenation over a list gives one key for each value; a bare name
/// without a text is kept for later. A call without a first argument, or with
/// a spread one, records nothing.
pub open spec fn read_t_arguments(scene: Scene, state: Extraction, call: usize, namespace: Option<Seq<char>>) -> Extraction {
    match scene.kind(call) {
        NodeKind::Call { arguments, .. } => match argument_expression(scene.tree, arguments@, 0) {
            Some(key) => {
                let ns = call_namespace(scene, call, namespace);
                match scene.text(key) {
                    Some(text) => state.with_key(ns, text),
                    None => match dynamic_keys(scene, key) {
                        Some(keys) => state.with_keys(ns, keys),
                        None => match scene.kind(key) {
                            NodeKind::Identifier { name, .. } => state.with_pending(
                                ns,
                                scene.store[scene.node].file_path,
                                name@,
                            ),
                            _ => state,
                        },
                    },
                }
            },
            None => state,
        },
        _ => state,
    }
}

/// The state after the calls of translator `symbol` were read, from its reference `from` on.
pub open spec fn read_t_from(
    scene: Scene,
    state: Extraction,
    symbol: usize,
    namespace: Option<Seq<char>>,
    from: int,
) -> Extraction
    decreases scene.reference_count(symbol) - from,
{
    if from < 0 || from >= scene.reference_count(symbol) {
        state
    } else {
        let next = match scene.reference_parent(symbol, from) {
            Some(parent) => match scene.kind(parent) {
                NodeKind::Call { .. } => read_t_arguments(scene, state, parent, namespace),
                _ => state,
            },
            None => state,
        };
        read_t_from(scene, next, symbol, namespace, from + 1)
    }
}

/// The state after every call of translator `symbol` was read.
pub open spec fn read_t(scene: Scene, state: Extraction, symbol: usize, namespace: Option<Seq<char>>) -> Extraction {
    read_t_from(scene, state, symbol, namespace, 0)
}

/// The call that member access `member` is the callee of, if its property is
/// known as the name of a translator.
pub open spec fn member_call(scene: Scene, state: Extraction, member: usize) -> Option<usize> {
    match scene.kind(member) {
        NodeKind::Member { property: Some(property), .. } => if state.knows_t_name(property@) {
            match scene.parent(member) {
                Some(call) => match scene.kind(call) {
                    NodeKind::Call { .. } => Some(call),
                    _ => None,
                },
                None => None,
            }
        } else {
            None
        },
        _ => None,
    }
}

/// The state after the calls `object.t(...)` on `symbol` were read, from its reference `from` on.
pub open spec fn read_object_member_t_from(
    scene: Scene,
    state: Extraction,
    symbol: usize,
    namespace: Option<Seq<char>>,
    from: int,
) -> Extraction
    decreases scene.reference_count(symbol) - from,
{
    if from < 0 || from >= scene.reference_count(symbol) {
        state
    } else {
        let next = match scene.reference_parent(symbol, from) {
            Some(parent) => match member_call(scene, state, parent) {
                Some(call) => read_t_arguments(scene, state, call, namespace),
                None => state,
            },
            None => state,
        };
        read_object_member_t_from(scene, next, symbol, namespace, from + 1)
    }
}

/// The state after every call `object.t(...)` on `symbol` was read.
pub open spec fn read_object_member_t(scene: Scene, state: Extraction, symbol: usize, namespace: Option<Seq<char>>) -> Extraction {
    read_object_member_t_from(scene, state, symbol, namespace, 0)
}

impl<'a> Walker<'a> {
    /// The node that contains the identifier of reference `k` of `symbol`.
    pub fn reference_parent(&self, symbol: usize, k: usize) -> (parent: Option<usize>)
        requires
            self.wf(),
            symbol < self.walk_utils.tree.symbols.len(),
            k < self.walk_utils.tree.symbols[symbol as int].references.len(),
        ensures
            parent == self.scene().reference_parent(symbol, k as int),
            parent matches Some(p) ==> p < self.walk_utils.tree.nodes.len(),
    {
        let tree = self.walk_utils.tree;
        let reference = tree.symbols[symbol].references[k];
        let node = tree.references[reference].node;
        tree.parent_node(node)
    }

    /// The namespace of translator call `call`.
    pub fn resolve_namespace(&self, call: usize, namespace: Option<String>) -> (ns: String)
        requires
            self.wf(),
            call < self.walk_utils.tree.nodes.len(),
        ensures
            ns@ == call_namespace(self.scene(), call, opt_text(namespace)),
    {
        let tree = self.walk_utils.tree;
        let explicit = match &tree.nodes[call].kind {
            NodeKind::Call { arguments, .. } => match self.walk_utils.argument(arguments, 1) {
                Some(options) => match &tree.nodes[options].kind {
                    NodeKind::Object { properties } => self.walk_utils.read_ns_property(
                        properties,
                        options,
                    ),
                    _ => None,
                },
                None => None,
            },
            _ => None,
        };
        match explicit {
            Some(text) => text,
            None => match namespace {
                Some(text) => text,
                None => "default".to_owned(),
            },
        }
    }

    fn string_elements(&self, elements: &Vec<usize>, owner: usize) -> (values: Vec<String>)
        requires
            self.wf(),
            crate::syntax::all_after(
                owner as int,
                elements@,
                self.walk_utils.tree.nodes.len() as int,
            ),
        ensures
            values.deep_view() == string_elements(self.scene(), elements@, 0),
    {
        let tree = self.walk_utils.tree;
        let ghost scene = self.scene();
        let mut values: Vec<String> = Vec::new();
        let mut i: usize = 0;
        while i < elements.len()
            invariant
                self.wf(),
                tree == self.walk_utils.tree,
                scene == self.scene(),
                crate::syntax::all_after(owner as int, elements@, tree.nodes.len() as int),
                i <= elements.len(),
                values.deep_view() + string_elements(scene, elements@, i as int) == string_elements(
                    scene,
                    elements@,
                    0,
                ),
            decreases elements.len() - i,
        {
            let ghost before = values.deep_view();
            match &tree.nodes[elements[i]].kind {
                NodeKind::StringLiteral { value } => {
                    values.push(value.clone());
                    assert(values.deep_view() =~= before.push(value@));
                    assert(before.push(value@) + string_elements(scene, elements@, i + 1)
                        =~= before + string_elements(scene, elements@, i as int));
                },
                _ => {},
            }
            i += 1;
        }
        assert(values.deep_view() + Seq::<Seq<char>>::empty() =~= values.deep_view());
        values
    }

    /// The string literals of the array that expression `expr` is or names.
    pub fn extract_array_literal_values(&self, expr: usize, fuel: usize) -> (values: Option<
        Vec<String>,
    >)
        requires
            self.wf(),
            expr < self.walk_utils.tree.nodes.len(),
        ensures
            match values {
                Some(list) => array_values(self.scene(), expr, fuel as nat) == Some(
                    list.deep_view(),
                ),
                None => array_values(self.scene(), expr, fuel as nat) is None,
            },
        decreases fuel,
    {
        let tree = self.walk_utils.tree;
        match &tree.nodes[expr].kind {
            NodeKind::Identifier { reference, .. } => {
                match self.walk_utils.get_var_defined_node(*reference) {
                    Some(declaration) => match &tree.nodes[declaration].kind {
                        NodeKind::VariableDeclarator { init: Some(init), .. } => {
                            if fuel > 0 {
                                self.extract_array_literal_values(*init, fuel - 1)
                            } else {
                                None
                            }
                        },
                        _ => None,
                    },
                    None => None,
                }
            },
            NodeKind::Array { elements } => {
                let values = self.string_elements(elements, expr);
                if values.len() == 0 {
                    None
                } else {
                    Some(values)
                }
            },
            _ => None,
        }
    }

    fn first_parameter_named(&self, id: usize, name: &str) -> (named: bool)
        requires
            self.wf(),
            id < self.walk_utils.tree.nodes.len(),
        ensures
            named == first_parameter_named(self.scene(), id, name@),
    {
        let tree = self.walk_utils.tree;
        match &tree.nodes[id].kind {
            NodeKind::Arrow { params, .. } => {
                if params.len() > 0 {
                    match &tree.nodes[params[0]].kind {
                        NodeKind::BindingIdentifier { name: parameter, .. } => text_eq(
                            parameter.as_str(),
                            name,
                        ),
                        _ => false,
                    }
                } else {
                    false
                }
            },
            _ => false,
        }
    }

    fn mapped_values(&self, id: usize, name: &str) -> (values: Option<Vec<String>>)
        requires
            self.wf(),
            id < self.walk_utils.tree.nodes.len(),
        ensures
            match values {
                Some(list) => mapped_values(self.scene(), id, name@) == Some(list.deep_view()),
                None => mapped_values(self.scene(), id, name@) is None,
            },
    {
        let tree = self.walk_utils.tree;
        match &tree.nodes[id].kind {
            NodeKind::Call { callee, arguments } => {
                if self.walk_utils.is_member_named(*callee, "map") {
                    match &tree.nodes[*callee].kind {
                        NodeKind::Member { object, .. } => {
                            match self.extract_array_literal_values(
                                *object,
                                self.walk_utils.chain_limit(),
                            ) {
                                Some(values) => match self.walk_utils.argument(arguments, 0) {
                                    Some(callback) => {
                                        if self.first_parameter_named(callback, name) {
                                            Some(values)
                                        } else {
                                            None
                                        }
                                    },
                                    None => None,
                                },
                                None => None,
                            }
                        },
                        _ => None,
                    }
                } else {
                    None
                }
            },
            _ => None,
        }
    }

    /// The values that a `map` call of the file runs the name `param_name` over.
    pub fn resolve_map_parameter_values(&self, param_name: &str) -> (values: Option<Vec<String>>)
        requires
            self.wf(),
        ensures
            match values {
                Some(list) => map_parameter_values(self.scene(), param_name@, 0) == Some(
                    list.deep_view(),
                ),
                None => map_parameter_values(self.scene(), param_name@, 0) is None,
            },
    {
        let tree = self.walk_utils.tree;
        let ghost scene = self.scene();
        let mut i: usize = 0;
        while i < tree.nodes.len()
            invariant
                self.wf(),
                tree == self.walk_utils.tree,
                scene == self.scene(),
                i <= tree.nodes.len(),
                map_parameter_values(scene, param_name@, i as int) == map_parameter_values(
                    scene,
                    param_name@,
                    0,
                ),
            decreases tree.nodes.len() - i,
        {
            match self.mapped_values(i, param_name) {
                Some(values) => {
                    return Some(values);
                },
                None => {},
            }
            i += 1;
        }
        None
    }

    /// The values that expression `expr` can take, if it is a name that a `map`
    /// call runs over a list.
    pub fn try_extract_variable_values(&self, expr: usize) -> (values: Option<Vec<String>>)
        requires
            self.wf(),
            expr < self.walk_utils.tree.nodes.len(),
        ensures
            match values {
                Some(list) => variable_values(self.scene(), expr) == Some(list.deep_view()),
                None => variable_values(self.scene(), expr) is None,
            },
    {
        match &self.walk_utils.tree.nodes[expr].kind {
            NodeKind::Identifier { name, .. } => self.resolve_map_parameter_values(name.as_str()),
            _ => None,
        }
    }

    /// The text of the fixed part of a key that is put together.
    pub fn try_extract_string_part(&self, expr: usize) -> (text: Option<String>)
        requires
            self.wf(),
            expr < self.walk_utils.tree.nodes.len(),
        ensures
            opt_text(text) == self.scene().text(expr),
    {
        self.walk_utils.read_str_expression(expr)
    }

    /// The keys of `left + right`, where `left` has a text and `right` runs over a list.
    pub fn try_resolve_dynamic_pattern(&self, left: usize, right: usize) -> (keys: Option<
        Vec<String>,
    >)
        requires
            self.wf(),
            left < self.walk_utils.tree.nodes.len(),
            right < self.walk_utils.tree.nodes.len(),
        ensures
            match keys {
                Some(list) => dynamic_pattern(self.scene(), left, right) == Some(list.deep_view()),
                None => dynamic_pattern(self.scene(), left, right) is None,
            },
    {
        match (self.try_extract_string_part(left), self.try_extract_variable_values(right)) {
            (Some(prefix), Some(values)) => {
                let mut keys: Vec<String> = Vec::new();
                let mut i: usize = 0;
                while i < values.len()
                    invariant
                        i <= values.len(),
                        keys.deep_view() + prefixed(prefix@, values.deep_view(), i as int)
                            == prefixed(prefix@, values.deep_view(), 0),
                    decreases values.len() - i,
                {
                    let ghost before = keys.deep_view();
                    let key = text_concat(prefix.as_str(), values[i].as_str());
                    assert(values.deep_view()[i as int] == values[i as int]@);
                    keys.push(key);
                    assert(keys.deep_view() =~= before.push(prefix@ + values[i as int]@));
                    assert(before.push(prefix@ + values[i as int]@) + prefixed(
                        prefix@,
                        values.deep_view(),
                        i + 1,
                    ) =~= before + prefixed(prefix@, values.deep_view(), i as int));
                    i += 1;
                }
                assert(keys.deep_view() + Seq::<Seq<char>>::empty() =~= keys.deep_view());
                Some(keys)
            },
            _ => None,
        }
    }

    /// The keys that the concatenation `expr` stands for.
    pub fn try_resolve_dynamic_keys(&self, expr: usize) -> (keys: Option<Vec<String>>)
        requires
            self.wf(),
            expr < self.walk_utils.tree.nodes.len(),
        ensures
            match keys {
                Some(list) => dynamic_keys(self.scene(), expr) == Some(list.deep_view()),
                None => dynamic_keys(self.scene(), expr) is None,
            },
    {
        match &self.walk_utils.tree.nodes[expr].kind {
            NodeKind::Binary { addition, left, right } => {
                if *addition {
                    match self.walk_utils.read_str_expression(expr) {
                        Some(text) => {
                            let mut keys: Vec<String> = Vec::new();
                            keys.push(text);
                            assert(keys.deep_view() =~= seq![text@]);
                            Some(keys)
                        },
                        None => self.try_resolve_dynamic_pattern(*left, *right),
                    }
                } else {
                    None
                }
            },
            _ => None,
        }
    }

    /// Reads the arguments of translator call `call`, bound in `namespace`.
    pub fn read_t_arguments(&mut self, call: usize, namespace: Option<String>)
        requires
            old(self).wf(),
            call < old(self).walk_utils.tree.nodes.len(),
        ensures
            old(self).becomes(
                final(self),
                read_t_arguments(old(self).scene(), old(self)@, call, opt_text(namespace)),
            ),
    {
        let tree = self.walk_utils.tree;
        match &tree.nodes[call].kind {
            NodeKind::Call { arguments, .. } => match self.walk_utils.argument(arguments, 0) {
                Some(key) => {
                    let ns = self.resolve_namespace(call, namespace);
                    match self.walk_utils.read_str_expression(key) {
                        Some(text) => {
                            self.add_key(ns.as_str(), text);
                        },
                        None => match self.try_resolve_dynamic_keys(key) {
                            Some(keys) => {
                                self.i18n_namespaces.add_keys(ns.as_str(), &keys);
                            },
                            None => match &tree.nodes[key].kind {
                                NodeKind::Identifier { name, .. } => {
                                    let file = self.walk_utils.store.nodes[self.walk_utils.node].file_path.clone();
                                    let mut key_path: Vec<KeyPath> = Vec::new();
                                    key_path.push(KeyPath::from_string(ns));
                                    let mut value_path: Vec<KeyPath> = Vec::new();
                                    value_path.push(KeyPath::from_node(file, name.clone()));
                                    assert(crate::post_collector::parts_view(key_path@) =~= seq![
                                        crate::post_collector::PartView::Text(ns@),
                                    ]);
                                    assert(crate::post_collector::parts_view(value_path@) =~= seq![
                                        crate::post_collector::PartView::Link {
                                            node: file@,
                                            member: name@,
                                        },
                                    ]);
                                    self.post_collects.add(key_path, value_path);
                                },
                                _ => {},
                            },
                        },
                    }
                },
                None => {},
            },
            _ => {},
        }
    }

    /// Reads every call of the translator `symbol_id`, bound in `namespace`.
    pub fn read_t(&mut self, symbol_id: usize, namespace: Option<String>)
        requires
            old(self).wf(),
            symbol_id < old(self).walk_utils.tree.symbols.len(),
        ensures
            old(self).becomes(
                final(self),
                read_t(old(self).scene(), old(self)@, symbol_id, opt_text(namespace)),
            ),
    {
        let tree = self.walk_utils.tree;
        let ghost scene = self.scene();
        let ghost ns = opt_text(namespace);
        let count = tree.symbols[symbol_id].references.len();
        let mut k: usize = 0;
        while k < count
            invariant
                self.wf(),
                self.walk_utils == old(self).walk_utils,
                tree == self.walk_utils.tree,
                scene == self.scene(),
                ns == opt_text(namespace),
                symbol_id < tree.symbols.len(),
                count == tree.symbols[symbol_id as int].references.len(),
                k <= count,
                read_t_from(scene, self@, symbol_id, ns, k as int) == read_t_from(
                    scene,
                    old(self)@,
                    symbol_id,
                    ns,
                    0,
                ),
            decreases count - k,
        {
            match self.reference_parent(symbol_id, k) {
                Some(parent) => match &tree.nodes[parent].kind {
                    NodeKind::Call { .. } => {
                        self.read_t_arguments(parent, clone_opt_text(&namespace));
                    },
                    _ => {},
                },
                None => {},
            }
            k += 1;
        }
    }

    fn member_call(&self, member: usize) -> (call: Option<usize>)
        requires
            self.wf(),
            member < self.walk_utils.tree.nodes.len(),
        ensures
            call == member_call(self.scene(), self@, member),
            call matches Some(c) ==> c < self.walk_utils.tree.nodes.len(),
    {
        let tree = self.walk_utils.tree;
        match &tree.nodes[member].kind {
            NodeKind::Member { property: Some(property), .. } => {
                if self.is_known_t_name(property.as_str()) {
                    match tree.parent_node(member) {
                        Some(call) => match &tree.nodes[call].kind {
                            NodeKind::Call { .. } => Some(call),
                            _ => None,
                        },
                        None => None,
                    }
                } else {
                    None
                }
            },
            _ => None,
        }
    }

    /// Reads every call `object.t(...)` on the object `symbol_id`, bound in `defined_ns`.
    pub fn read_object_member_t(&mut self, symbol_id: usize, defined_ns: Option<String>)
        requires
            old(self).wf(),
            symbol_id < old(self).walk_utils.tree.symbols.len(),
        ensures
            old(self).becomes(
                final(self),
                read_object_member_t(old(self).scene(), old(self)@, symbol_id, opt_text(defined_ns)),
            ),
    {
        let tree = self.walk_utils.tree;
        let ghost scene = self.scene();
        let ghost ns = opt_text(defined_ns);
        let count = tree.symbols[symbol_id].references.len();
        let mut k: usize = 0;
        while k < count
            invariant
                self.wf(),
                self.walk_utils == old(self).walk_utils,
                tree == self.walk_utils.tree,
                scene == self.scene(),
                ns == opt_text(defined_ns),
                symbol_id < tree.symbols.len(),
                count == tree.symbols[symbol_id as int].references.len(),
                k <= count,
                read_object_member_t_from(scene, self@, symbol_id, ns, k as int)
                    == read_object_member_t_from(scene, old(self)@, symbol_id, ns, 0),
            decreases count - k,
        {
            match self.reference_parent(symbol_id, k) {
                Some(parent) => match self.member_call(parent) {
                    Some(call) => {
                        self.read_t_arguments(call, clone_opt_text(&defined_ns));
                    },
                    None => {},
                },
                None => {},
            }
            k += 1;
        }
    }
}

} // verus!
