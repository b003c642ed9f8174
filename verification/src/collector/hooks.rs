//! Reading the uses of a translation hook: the binding it is called into, the
//! functions that wrap it, and the hooks that rewrite their argument into a key.

use crate::collector::reading::{read_object_member_t, read_t, read_t_arguments};
use crate::collector::walker::{names_translator, t_member_names, Extraction, Walker};
use crate::i18n_types::I18nType;
use crate::node::{exports_view, find_i18n_member, i18n_export_of, Export, ExportView};
use crate::node_store::node_index;
use crate::post_collector::{ReturnedCall, ReturnedView};
use crate::syntax::NodeKind;
use crate::text::{
    clone_opt_text, fill_placeholders, filled, has_placeholder, opt_text, text_concat,
};
use crate::walk_utils::{argument_expression, hook_namespace, Scene};
use vstd::prelude::*;

verus! {

/// The binding context of a hook call.
#[derive(Clone, Copy, PartialEq, Eq, Structural)]
pub enum HookContext {
    /// The call is not bound to anything that can be followed.
    Nothing,
    /// The result of the call is bound by this variable declarator.
    Binding(usize),
    /// The call is the result of a function that is bound to this symbol.
    Wrapper(usize),
}

/// The state of an extraction together with the hook symbols that were followed.
pub struct HookProgress {
    pub state: Extraction,
    pub visited: Seq<usize>,
}

/// The pattern of a template with exactly one hole: its two pieces around `{}`.
pub open spec fn template_pattern(scene: Scene, id: usize) -> Option<Seq<char>> {
    match scene.kind(id) {
        NodeKind::TemplateLiteral { quasis, expressions } => if quasis.len() == 2
            && expressions.len() == 1 {
            Some(quasis[0]@ + "{}"@ + quasis[1]@)
        } else {
            None
        },
        _ => None,
    }
}

/// The key expression of `return t(key)` at node `id`, where `t` names a translator.
pub open spec fn returned_key(scene: Scene, state: Extraction, id: usize) -> Option<usize> {
    match scene.kind(id) {
        NodeKind::Return { argument: Some(argument) } => match scene.kind(argument) {
            NodeKind::Call { callee, arguments } => if names_translator(scene, state, callee) {
                argument_expression(scene.tree, arguments@, 0)
            } else {
                None
            },
            _ => None,
        },
        _ => None,
    }
}

/// The pattern of the first `return t(key)` at or after node `from`.
pub open spec fn current_pattern_from(scene: Scene, state: Extraction, from: int) -> Option<Seq<char>>
    decreases scene.tree.nodes.len() - from,
{
    if from < 0 || from >= scene.tree.nodes.len() {
        None
    } else {
        match returned_key(scene, state, from as usize) {
            Some(key) => template_pattern(scene, key),
            None => current_pattern_from(scene, state, from + 1),
        }
    }
}

/// The pattern of the first of `calls[from..]` whose callee is known as a translator.
pub open spec fn module_pattern_from(calls: Seq<ReturnedView>, state: Extraction, from: int) -> Option<
    Seq<char>,
>
    decreases calls.len() - from,
{
    if from < 0 || from >= calls.len() {
        None
    } else if state.knows_t_name(calls[from].callee) {
        calls[from].pattern
    } else {
        module_pattern_from(calls, state, from + 1)
    }
}

/// The pattern found in the first module, among those that edges `from..` of
/// the file lead to, that has one.
pub open spec fn imported_pattern_from(scene: Scene, state: Extraction, from: int) -> Option<Seq<char>>
    decreases scene.store[scene.node].importing.len() - from,
{
    let edges = scene.store[scene.node].importing;
    if from < 0 || from >= edges.len() {
        None
    } else {
        let here = match node_index(scene.store, edges[from].target) {
            Some(target) => module_pattern_from(scene.store[target].module.returned_calls, state, 0),
            None => None,
        };
        match here {
            Some(pattern) => Some(pattern),
            None => imported_pattern_from(scene, state, from + 1),
        }
    }
}

/// The pattern by which a custom hook turns its argument into a key: the one
/// of this file, else the one of a module it imports.
pub open spec fn hook_pattern(scene: Scene, state: Extraction) -> Option<Seq<char>> {
    match current_pattern_from(scene, state, 0) {
        Some(pattern) => Some(pattern),
        None => imported_pattern_from(scene, state, 0),
    }
}

/// `pattern` with `input` in the place of each `{}`; `None` without a `{}`.
pub open spec fn applied_pattern(pattern: Seq<char>, input: Seq<char>) -> Option<Seq<char>> {
    if has_placeholder(pattern) {
        Some(filled(pattern, 0, input))
    } else {
        None
    }
}

/// The key that a custom hook makes of `input`, if a pattern is found.
pub open spec fn hook_transformation(scene: Scene, state: Extraction, input: Seq<char>) -> Option<
    Seq<char>,
> {
    match hook_pattern(scene, state) {
        Some(pattern) => applied_pattern(pattern, input),
        None => None,
    }
}

/// Whether call `call` of a hook hands the hook a key to rewrite: the hook is
/// not the preset one, it has no namespace of its own and the call has arguments.
pub open spec fn is_custom_hook_call(scene: Scene, call: usize, standard: bool, defined_ns: Option<Seq<char>>) -> bool {
    &&& !standard
    &&& defined_ns is None
    &&& match scene.kind(call) {
        NodeKind::Call { arguments, .. } => arguments.len() > 0,
        _ => false,
    }
}

/// The state after call `call` of a custom hook was read: the text of its
/// first argument, rewritten by the pattern of the hook, is a key; without a
/// pattern the text itself is a key of the namespace `default`.
pub open spec fn custom_hook_call(scene: Scene, state: Extraction, call: usize, defined_ns: Option<Seq<char>>) -> Extraction {
    match scene.kind(call) {
        NodeKind::Call { arguments, .. } => match argument_expression(scene.tree, arguments@, 0) {
            Some(first) => match scene.text(first) {
                Some(input) => match hook_transformation(scene, state, input) {
                    Some(key) => state.with_key(
                        match defined_ns {
                            Some(ns) => ns,
                            None => "default"@,
                        },
                        key,
                    ),
                    None => state.with_key("default"@, input),
                },
                None => state,
            },
            None => state,
        },
        _ => state,
    }
}

/// The symbol and the name that binding target `id` binds a destructured value to.
pub open spec fn bound_translator(scene: Scene, id: usize) -> Option<(usize, Seq<char>)> {
    match scene.kind(id) {
        NodeKind::BindingIdentifier { name, symbol } => Some((symbol, name@)),
        NodeKind::AssignmentPattern { left, .. } => match scene.kind(left) {
            NodeKind::BindingIdentifier { name, symbol } => Some((symbol, name@)),
            _ => None,
        },
        _ => None,
    }
}

/// The state after the properties `from..` of a destructuring were read: each
/// one whose key names a translator binds a translator, whose calls are read.
pub open spec fn binding_properties_from(
    scene: Scene,
    state: Extraction,
    properties: Seq<usize>,
    namespace: Option<Seq<char>>,
    names: Seq<Seq<char>>,
    from: int,
) -> Extraction
    decreases properties.len() - from,
{
    if from < 0 || from >= properties.len() {
        state
    } else {
        let next = match scene.kind(properties[from]) {
            NodeKind::BindingProperty { key: Some(key), value } => if names.contains(key@)
                || state.knows_t_name(key@) {
                match bound_translator(scene, value) {
                    Some((symbol, name)) => read_t(
                        scene,
                        state.with_t_symbol(symbol, name),
                        symbol,
                        namespace,
                    ),
                    None => state,
                }
            } else {
                state
            },
            _ => state,
        };
        binding_properties_from(scene, next, properties, namespace, names, from + 1)
    }
}

/// The state after the binding of a hook result by declarator `var` was read:
/// `const { t } = hook()` binds translators, `const i18n = hook()` an object
/// with a translator member.
pub open spec fn hook_variable_binding(
    scene: Scene,
    state: Extraction,
    var: usize,
    namespace: Option<Seq<char>>,
    names: Seq<Seq<char>>,
) -> Extraction {
    match scene.kind(var) {
        NodeKind::VariableDeclarator { id, .. } => match scene.kind(id) {
            NodeKind::ObjectPattern { properties } => binding_properties_from(
                scene,
                state,
                properties@,
                namespace,
                names,
                0,
            ),
            NodeKind::BindingIdentifier { symbol, .. } => read_object_member_t(
                scene,
                state,
                symbol,
                namespace,
            ),
            _ => state,
        },
        _ => state,
    }
}

/// The nearest binding context at or above node `at`: the declarator that
/// binds the value, or, through at most one enclosing function, the symbol
/// that the function is bound to. `wrapped` tells that a function was passed.
pub open spec fn hook_context_at(scene: Scene, at: usize, wrapped: bool) -> HookContext
    decreases at,
    when scene.tree.wf() && at < scene.tree.nodes.len()
{
    match scene.kind(at) {
        NodeKind::VariableDeclarator { id, .. } => if wrapped {
            match scene.kind(id) {
                NodeKind::BindingIdentifier { symbol, .. } => HookContext::Wrapper(symbol),
                _ => HookContext::Nothing,
            }
        } else {
            HookContext::Binding(at)
        },
        NodeKind::Function { name, .. } => if wrapped {
            HookContext::Nothing
        } else {
            match name {
                Some(binding) => match scene.kind(binding) {
                    NodeKind::BindingIdentifier { symbol, .. } => HookContext::Wrapper(symbol),
                    _ => HookContext::Nothing,
                },
                None => match scene.parent(at) {
                    Some(parent) => hook_context_at(scene, parent, true),
                    None => HookContext::Nothing,
                },
            }
        },
        NodeKind::Arrow { .. } => if wrapped {
            HookContext::Nothing
        } else {
            match scene.parent(at) {
                Some(parent) => hook_context_at(scene, parent, true),
                None => HookContext::Nothing,
            }
        },
        _ => match scene.parent(at) {
            Some(parent) => hook_context_at(scene, parent, wrapped),
            None => HookContext::Nothing,
        },
    }
}

/// The nearest binding context at or above `at`, if there is such a node.
pub open spec fn hook_context(scene: Scene, at: Option<usize>, wrapped: bool) -> HookContext {
    match at {
        Some(n) => hook_context_at(scene, n, wrapped),
        None => HookContext::Nothing,
    }
}

/// How many more hook symbols can be followed.
pub open spec fn budget(scene: Scene, visited: Seq<usize>) -> nat {
    if visited.len() < scene.tree.symbols.len() {
        (scene.tree.symbols.len() - visited.len()) as nat
    } else {
        0
    }
}

/// The namespace of a hook call: what its first argument names, else the one of the hook.
pub open spec fn hook_call_namespace(scene: Scene, call: usize, defined_ns: Option<Seq<char>>) -> Option<
    Seq<char>,
> {
    match hook_namespace(scene.tree, scene.store, scene.node, call) {
        Some(text) => Some(text),
        None => defined_ns,
    }
}

/// The progress after the uses of hook `symbol` were read, unless it was
/// followed before.
pub open spec fn process_hook(
    scene: Scene,
    progress: HookProgress,
    symbol: usize,
    defined_ns: Option<Seq<char>>,
    names: Seq<Seq<char>>,
    standard: bool,
) -> HookProgress
    decreases budget(scene, progress.visited), 0nat, 0int,
{
    if progress.visited.contains(symbol) || progress.visited.len() >= scene.tree.symbols.len() {
        progress
    } else {
        process_references(
            scene,
            HookProgress { state: progress.state, visited: progress.visited.push(symbol) },
            symbol,
            defined_ns,
            names,
            standard,
            0,
        )
    }
}

/// The progress after call `call` of a hook was read: a custom hook call gives
/// a key; any other is followed to its binding or to the function that wraps it.
pub open spec fn hook_call(
    scene: Scene,
    progress: HookProgress,
    call: usize,
    defined_ns: Option<Seq<char>>,
    names: Seq<Seq<char>>,
    standard: bool,
) -> HookProgress
    decreases budget(scene, progress.visited), 1nat, 0int,
{
    if is_custom_hook_call(scene, call, standard, defined_ns) {
        HookProgress {
            state: custom_hook_call(scene, progress.state, call, defined_ns),
            visited: progress.visited,
        }
    } else {
        let namespace = hook_call_namespace(scene, call, defined_ns);
        match hook_context(scene, scene.parent(call), false) {
            HookContext::Binding(var) => HookProgress {
                state: hook_variable_binding(scene, progress.state, var, namespace, names),
                visited: progress.visited,
            },
            HookContext::Wrapper(wrapper) => process_hook(
                scene,
                progress,
                wrapper,
                namespace,
                names,
                true,
            ),
            HookContext::Nothing => progress,
        }
    }
}

/// The progress after the references `from..` of hook `symbol` were read.
pub open spec fn process_references(
    scene: Scene,
    progress: HookProgress,
    symbol: usize,
    defined_ns: Option<Seq<char>>,
    names: Seq<Seq<char>>,
    standard: bool,
    from: int,
) -> HookProgress
    decreases budget(scene, progress.visited), 2nat, scene.reference_count(symbol) - from,
{
    if from < 0 || from >= scene.reference_count(symbol) {
        progress
    } else {
        let next = match scene.reference_parent(symbol, from) {
            Some(call) => match scene.kind(call) {
                NodeKind::Call { .. } => hook_call(scene, progress, call, defined_ns, names, standard),
                _ => progress,
            },
            None => progress,
        };
        let kept = if next.visited.len() >= progress.visited.len() {
            next
        } else {
            progress
        };
        process_references(scene, kept, symbol, defined_ns, names, standard, from + 1)
    }
}

/// The state after the uses of the hook imported by specifier `specifier` were read.
pub open spec fn read_hook(
    scene: Scene,
    state: Extraction,
    specifier: usize,
    defined_ns: Option<Seq<char>>,
    members: Seq<ExportView>,
) -> Extraction {
    match scene.kind(specifier) {
        NodeKind::ImportSpecifier { imported, local } => match scene.kind(local) {
            NodeKind::BindingIdentifier { symbol, .. } => {
                let names = t_member_names(members);
                process_hook(
                    scene,
                    HookProgress { state: state.with_member_names(names, 0), visited: Seq::empty() },
                    symbol,
                    defined_ns,
                    names,
                    imported@ == "useTranslation"@,
                ).state
            },
            _ => state,
        },
        _ => state,
    }
}

/// The state after the member access `member` on a namespace import was read.
pub open spec fn namespace_member(scene: Scene, state: Extraction, member: usize, members: Seq<ExportView>) -> Extraction {
    match scene.kind(member) {
        NodeKind::Member { property: Some(property), .. } => match (
            i18n_export_of(members, property@),
            scene.parent(member),
        ) {
            (Some(info), Some(call)) => match scene.kind(call) {
                NodeKind::Call { .. } => match info.kind {
                    I18nType::Hook => match scene.parent(call) {
                        Some(var) => match scene.kind(var) {
                            NodeKind::VariableDeclarator { .. } => hook_variable_binding(
                                scene,
                                state,
                                var,
                                hook_call_namespace(scene, call, info.ns),
                                t_member_names(members),
                            ),
                            _ => state,
                        },
                        None => state,
                    },
                    I18nType::TMethod => read_t_arguments(scene, state, call, info.ns),
                    _ => state,
                },
                _ => state,
            },
            _ => state,
        },
        _ => state,
    }
}

/// The state after the references `from..` of namespace import `symbol` were read.
pub open spec fn read_namespace_import_from(
    scene: Scene,
    state: Extraction,
    symbol: usize,
    members: Seq<ExportView>,
    from: int,
) -> Extraction
    decreases scene.reference_count(symbol) - from,
{
    if from < 0 || from >= scene.reference_count(symbol) {
        state
    } else {
        let next = match scene.reference_parent(symbol, from) {
            Some(parent) => namespace_member(scene, state, parent, members),
            None => state,
        };
        read_namespace_import_from(scene, next, symbol, members, from + 1)
    }
}

/// The state after the uses `ns.useTranslation()` and `ns.t()` of the
/// namespace import `symbol` were read.
pub open spec fn read_namespace_import(scene: Scene, state: Extraction, symbol: usize, members: Seq<ExportView>) -> Extraction {
    read_namespace_import_from(scene, state, symbol, members, 0)
}

impl<'a> Walker<'a> {
    /// The pattern of a template with exactly one hole.
    pub fn extract_template_pattern(&self, expr: usize) -> (pattern: Option<String>)
        requires
            self.wf(),
            expr < self.walk_utils.tree.nodes.len(),
        ensures
            opt_text(pattern) == template_pattern(self.scene(), expr),
    {
        match &self.walk_utils.tree.nodes[expr].kind {
            NodeKind::TemplateLiteral { quasis, expressions } => {
                if quasis.len() == 2 && expressions.len() == 1 {
                    let head = text_concat(quasis[0].as_str(), "{}");
                    Some(text_concat(head.as_str(), quasis[1].as_str()))
                } else {
                    None
                }
            },
            _ => None,
        }
    }

    /// `pattern` with `input_key` in the place of each `{}`; `None` without a `{}`.
    pub fn apply_hook_pattern(&self, pattern: &str, input_key: &str) -> (key: Option<String>)
        ensures
            opt_text(key) == applied_pattern(pattern@, input_key@),
    {
        let (key, found) = fill_placeholders(pattern, input_key);
        if found {
            Some(key)
        } else {
            None
        }
    }

    fn returned_key(&self, id: usize) -> (key: Option<usize>)
        requires
            self.wf(),
            id < self.walk_utils.tree.nodes.len(),
        ensures
            key == returned_key(self.scene(), self@, id),
            key matches Some(k) ==> k < self.walk_utils.tree.nodes.len(),
    {
        let tree = self.walk_utils.tree;
        match &tree.nodes[id].kind {
            NodeKind::Return { argument: Some(argument) } => match &tree.nodes[*argument].kind {
                NodeKind::Call { callee, arguments } => {
                    if self.is_t_identifier(*callee) {
                        self.walk_utils.argument(arguments, 0)
                    } else {
                        None
                    }
                },
                _ => None,
            },
            _ => None,
        }
    }

    /// The pattern of the first `return t(key)` of this file.
    pub fn analyze_current_hook_implementation(&self) -> (pattern: Option<String>)
        requires
            self.wf(),
        ensures
            opt_text(pattern) == current_pattern_from(self.scene(), self@, 0),
    {
        let tree = self.walk_utils.tree;
        let ghost scene = self.scene();
        let mut i: usize = 0;
        while i < tree.nodes.len()
            invariant
                self.wf(),
                tree == self.walk_utils.tree,
                scene == self.scene(),
                i <= tree.nodes.len(),
                current_pattern_from(scene, self@, i as int) == current_pattern_from(scene, self@, 0),
            decreases tree.nodes.len() - i,
        {
            match self.returned_key(i) {
                Some(key) => {
                    return self.extract_template_pattern(key);
                },
                None => {},
            }
            i += 1;
        }
        None
    }

    /// The pattern of the first call that the module of node `file` returns
    /// from a function and whose callee is known as a translator.
    pub fn analyze_file_for_hook_pattern(&self, file: usize) -> (pattern: Option<String>)
        requires
            file < self.walk_utils.store.nodes.len(),
        ensures
            opt_text(pattern) == module_pattern_from(
                self.walk_utils.store@[file as int].module.returned_calls,
                self@,
                0,
            ),
    {
        let calls = &self.walk_utils.store.nodes[file].module.returned_calls;
        assert(self.walk_utils.store@[file as int] == self.walk_utils.store.nodes[file as int]@);
        let mut i: usize = 0;
        while i < calls.len()
            invariant
                i <= calls.len(),
                calls@.map_values(|r: ReturnedCall| r@)
                    == self.walk_utils.store@[file as int].module.returned_calls,
                module_pattern_from(calls@.map_values(|r: ReturnedCall| r@), self@, i as int)
                    == module_pattern_from(calls@.map_values(|r: ReturnedCall| r@), self@, 0),
            decreases calls.len() - i,
        {
            if self.is_known_t_name(calls[i].callee.as_str()) {
                return clone_opt_text(&calls[i].pattern);
            }
            i += 1;
        }
        None
    }

    /// The pattern found in the first imported module that has one.
    pub fn analyze_imported_hook_implementation(&self) -> (pattern: Option<String>)
        requires
            self.wf(),
        ensures
            opt_text(pattern) == imported_pattern_from(self.scene(), self@, 0),
    {
        let store = self.walk_utils.store;
        let ghost scene = self.scene();
        let edges = &store.nodes[self.walk_utils.node].importing;
        assert(scene.store[scene.node].importing == crate::node::edges_view(edges@));
        let mut i: usize = 0;
        while i < edges.len()
            invariant
                self.wf(),
                store == self.walk_utils.store,
                scene == self.scene(),
                scene.store[scene.node].importing == crate::node::edges_view(edges@),
                i <= edges.len(),
                imported_pattern_from(scene, self@, i as int) == imported_pattern_from(
                    scene,
                    self@,
                    0,
                ),
            decreases edges.len() - i,
        {
            assert(crate::node::edges_view(edges@)[i as int] == edges[i as int]@);
            match store.index_of(edges[i].target.as_str()) {
                Some(target) => match self.analyze_file_for_hook_pattern(target) {
                    Some(pattern) => {
                        return Some(pattern);
                    },
                    None => {},
                },
                None => {},
            }
            i += 1;
        }
        None
    }

    /// The key that a custom hook makes of `input_key`, if a pattern is found.
    pub fn resolve_custom_hook_transformation(&self, input_key: &str) -> (key: Option<String>)
        requires
            self.wf(),
        ensures
            opt_text(key) == hook_transformation(self.scene(), self@, input_key@),
    {
        match self.analyze_current_hook_implementation() {
            Some(pattern) => self.apply_hook_pattern(pattern.as_str(), input_key),
            None => match self.analyze_imported_hook_implementation() {
                Some(pattern) => self.apply_hook_pattern(pattern.as_str(), input_key),
                None => None,
            },
        }
    }

    /// Whether call `call` of a hook hands the hook a key to rewrite.
    pub fn is_custom_hook_call(&self, call: usize, is_standard_hook: bool, defined_namespace: &Option<
        String,
    >) -> (custom: bool)
        requires
            call < self.walk_utils.tree.nodes.len(),
        ensures
            custom == is_custom_hook_call(
                self.scene(),
                call,
                is_standard_hook,
                opt_text(*defined_namespace),
            ),
    {
        let has_arguments = match &self.walk_utils.tree.nodes[call].kind {
            NodeKind::Call { arguments, .. } => arguments.len() > 0,
            _ => false,
        };
        !is_standard_hook && has_arguments && defined_namespace.is_none()
    }

    /// Reads call `call` of a custom hook.
    pub fn handle_custom_hook_call(&mut self, call: usize, defined_ns: Option<String>)
        requires
            old(self).wf(),
            call < old(self).walk_utils.tree.nodes.len(),
        ensures
            old(self).becomes(
                final(self),
                custom_hook_call(old(self).scene(), old(self)@, call, opt_text(defined_ns)),
            ),
    {
        let tree = self.walk_utils.tree;
        match &tree.nodes[call].kind {
            NodeKind::Call { arguments, .. } => match self.walk_utils.argument(arguments, 0) {
                Some(first) => match self.walk_utils.read_str_expression(first) {
                    Some(input) => match self.resolve_custom_hook_transformation(input.as_str()) {
                        Some(key) => {
                            let namespace = match defined_ns {
                                Some(ns) => ns,
                                None => "default".to_owned(),
                            };
                            self.add_key(namespace.as_str(), key);
                        },
                        None => {
                            self.add_key("default", input);
                        },
                    },
                    None => {},
                },
                None => {},
            },
            _ => {},
        }
    }

    fn bound_translator(&self, id: usize) -> (bound: Option<(usize, &'a String)>)
        requires
            self.wf(),
            id < self.walk_utils.tree.nodes.len(),
        ensures
            match bound {
                Some((symbol, name)) => bound_translator(self.scene(), id) == Some((symbol, name@))
                    && symbol < self.walk_utils.tree.symbols.len(),
                None => bound_translator(self.scene(), id) is None,
            },
    {
        let tree = self.walk_utils.tree;
        match &tree.nodes[id].kind {
            NodeKind::BindingIdentifier { name, symbol } => Some((*symbol, name)),
            NodeKind::AssignmentPattern { left, .. } => match &tree.nodes[*left].kind {
                NodeKind::BindingIdentifier { name, symbol } => Some((*symbol, name)),
                _ => None,
            },
            _ => None,
        }
    }

    /// Reads the binding of a hook result by declarator `var`.
    pub fn handle_hook_variable_binding(
        &mut self,
        var: usize,
        namespace: Option<String>,
        translation_names: &Vec<String>,
    )
        requires
            old(self).wf(),
            var < old(self).walk_utils.tree.nodes.len(),
        ensures
            old(self).becomes(
                final(self),
                hook_variable_binding(
                    old(self).scene(),
                    old(self)@,
                    var,
                    opt_text(namespace),
                    translation_names.deep_view(),
                ),
            ),
    {
        let tree = self.walk_utils.tree;
        let ghost scene = self.scene();
        let ghost ns = opt_text(namespace);
        let ghost names = translation_names.deep_view();
        match &tree.nodes[var].kind {
            NodeKind::VariableDeclarator { id, .. } => match &tree.nodes[*id].kind {
                NodeKind::ObjectPattern { properties } => {
                    let mut i: usize = 0;
                    while i < properties.len()
                        invariant
                            self.wf(),
                            self.walk_utils == old(self).walk_utils,
                            tree == self.walk_utils.tree,
                            scene == self.scene(),
                            ns == opt_text(namespace),
                            names == translation_names.deep_view(),
                            crate::syntax::all_after(
                                *id as int,
                                properties@,
                                tree.nodes.len() as int,
                            ),
                            i <= properties.len(),
                            binding_properties_from(scene, self@, properties@, ns, names, i as int)
                                == binding_properties_from(
                                scene,
                                old(self)@,
                                properties@,
                                ns,
                                names,
                                0,
                            ),
                        decreases properties.len() - i,
                    {
                        match &tree.nodes[properties[i]].kind {
                            NodeKind::BindingProperty { key: Some(key), value } => {
                                if crate::text::contains_text(translation_names, key.as_str())
                                    || self.is_known_t_name(key.as_str()) {
                                    match self.bound_translator(*value) {
                                        Some((symbol, name)) => {
                                            self.register_t_symbol(symbol, name.as_str());
                                            self.read_t(symbol, clone_opt_text(&namespace));
                                        },
                                        None => {},
                                    }
                                }
                            },
                            _ => {},
                        }
                        i += 1;
                    }
                },
                NodeKind::BindingIdentifier { symbol, .. } => {
                    self.read_object_member_t(*symbol, namespace);
                },
                _ => {},
            },
            _ => {},
        }
    }

    /// The nearest binding context above hook call `call`.
    pub fn hook_context(&self, call: usize) -> (context: HookContext)
        requires
            self.wf(),
            call < self.walk_utils.tree.nodes.len(),
        ensures
            context == hook_context(self.scene(), self.scene().parent(call), false),
            context matches HookContext::Binding(var) ==> var < self.walk_utils.tree.nodes.len(),
            context matches HookContext::Wrapper(symbol) ==> symbol
                < self.walk_utils.tree.symbols.len(),
    {
        let tree = self.walk_utils.tree;
        let ghost scene = self.scene();
        let ghost whole = hook_context(scene, scene.parent(call), false);
        let mut current = tree.parent_node(call);
        let mut wrapped = false;
        loop
            invariant
                self.wf(),
                tree == self.walk_utils.tree,
                scene == self.scene(),
                current matches Some(n) ==> n < tree.nodes.len(),
                whole == hook_context(scene, scene.parent(call), false),
                hook_context(scene, current, wrapped) == whole,
            decreases
                    (match current {
                        Some(n) => n + 1,
                        None => 0,
                    }),
        {
            match current {
                None => {
                    return HookContext::Nothing;
                },
                Some(n) => match &tree.nodes[n].kind {
                    NodeKind::VariableDeclarator { id, .. } => {
                        if wrapped {
                            match &tree.nodes[*id].kind {
                                NodeKind::BindingIdentifier { symbol, .. } => {
                                    return HookContext::Wrapper(*symbol);
                                },
                                _ => {
                                    return HookContext::Nothing;
                                },
                            }
                        } else {
                            return HookContext::Binding(n);
                        }
                    },
                    NodeKind::Function { name, .. } => {
                        if wrapped {
                            return HookContext::Nothing;
                        }
                        match name {
                            Some(binding) => match &tree.nodes[*binding].kind {
                                NodeKind::BindingIdentifier { symbol, .. } => {
                                    return HookContext::Wrapper(*symbol);
                                },
                                _ => {
                                    return HookContext::Nothing;
                                },
                            },
                            None => {
                                wrapped = true;
                                current = tree.parent_node(n);
                            },
                        }
                    },
                    NodeKind::Arrow { .. } => {
                        if wrapped {
                            return HookContext::Nothing;
                        }
                        wrapped = true;
                        current = tree.parent_node(n);
                    },
                    _ => {
                        current = tree.parent_node(n);
                    },
                },
            }
        }
    }

    /// The namespace of hook call `call`, of a hook with the namespace `defined_ns`.
    pub fn read_hook_from_namespace(&self, call: usize, defined_ns: &Option<String>) -> (namespace:
        Option<String>)
        requires
            self.wf(),
            call < self.walk_utils.tree.nodes.len(),
        ensures
            opt_text(namespace) == hook_call_namespace(self.scene(), call, opt_text(*defined_ns)),
    {
        match self.walk_utils.read_hook_namespace_argument(call) {
            Some(text) => Some(text),
            None => clone_opt_text(defined_ns),
        }
    }

    /// Reads the uses of hook `symbol_id`, unless it was followed before.
    pub fn process_hook_symbol_references(
        &mut self,
        symbol_id: usize,
        defined_ns: Option<String>,
        translation_names: &Vec<String>,
        is_standard_hook: bool,
        visited_symbols: &mut Vec<usize>,
    )
        requires
            old(self).wf(),
            symbol_id < old(self).walk_utils.tree.symbols.len(),
        ensures
            final(self).walk_utils == old(self).walk_utils,
            (HookProgress { state: final(self)@, visited: final(visited_symbols)@ }) == process_hook(
                old(self).scene(),
                HookProgress { state: old(self)@, visited: old(visited_symbols)@ },
                symbol_id,
                opt_text(defined_ns),
                translation_names.deep_view(),
                is_standard_hook,
            ),
            final(visited_symbols).len() >= old(visited_symbols).len(),
        decreases budget(old(self).scene(), old(visited_symbols)@), 0nat,
    {
        let tree = self.walk_utils.tree;
        if crate::text::contains_index(visited_symbols, symbol_id) || visited_symbols.len()
            >= tree.symbols.len() {
            return ;
        }
        visited_symbols.push(symbol_id);
        let ghost scene = self.scene();
        let ghost ns = opt_text(defined_ns);
        let ghost names = translation_names.deep_view();
        let ghost start = HookProgress { state: self@, visited: visited_symbols@ };
        let count = tree.symbols[symbol_id].references.len();
        let mut k: usize = 0;
        while k < count
            invariant
                self.wf(),
                self.walk_utils == old(self).walk_utils,
                tree == self.walk_utils.tree,
                scene == self.scene(),
                ns == opt_text(defined_ns),
                names == translation_names.deep_view(),
                symbol_id < tree.symbols.len(),
                count == tree.symbols[symbol_id as int].references.len(),
                k <= count,
                old(visited_symbols).len() < tree.symbols.len(),
                visited_symbols.len() > old(visited_symbols).len(),
                process_references(
                    scene,
                    HookProgress { state: self@, visited: visited_symbols@ },
                    symbol_id,
                    ns,
                    names,
                    is_standard_hook,
                    k as int,
                ) == process_references(scene, start, symbol_id, ns, names, is_standard_hook, 0),
            decreases count - k,
        {
            match self.reference_parent(symbol_id, k) {
                Some(call) => match &tree.nodes[call].kind {
                    NodeKind::Call { .. } => {
                        self.handle_hook_call(
                            call,
                            &defined_ns,
                            translation_names,
                            is_standard_hook,
                            visited_symbols,
                        );
                    },
                    _ => {},
                },
                None => {},
            }
            k += 1;
        }
    }

    fn handle_hook_call(
        &mut self,
        call: usize,
        defined_ns: &Option<String>,
        translation_names: &Vec<String>,
        is_standard_hook: bool,
        visited_symbols: &mut Vec<usize>,
    )
        requires
            old(self).wf(),
            call < old(self).walk_utils.tree.nodes.len(),
        ensures
            final(self).walk_utils == old(self).walk_utils,
            (HookProgress { state: final(self)@, visited: final(visited_symbols)@ }) == hook_call(
                old(self).scene(),
                HookProgress { state: old(self)@, visited: old(visited_symbols)@ },
                call,
                opt_text(*defined_ns),
                translation_names.deep_view(),
                is_standard_hook,
            ),
            final(visited_symbols).len() >= old(visited_symbols).len(),
        decreases budget(old(self).scene(), old(visited_symbols)@), 3nat,
    {
        if self.is_custom_hook_call(call, is_standard_hook, defined_ns) {
            self.handle_custom_hook_call(call, clone_opt_text(defined_ns));
            return ;
        }
        let namespace = self.read_hook_from_namespace(call, defined_ns);
        self.handle_hook_call_context(call, namespace, translation_names, visited_symbols);
    }

    /// Follows hook call `call_node` to its binding or to the function that wraps it.
    pub fn handle_hook_call_context(
        &mut self,
        call_node: usize,
        namespace: Option<String>,
        translation_names: &Vec<String>,
        visited_symbols: &mut Vec<usize>,
    )
        requires
            old(self).wf(),
            call_node < old(self).walk_utils.tree.nodes.len(),
        ensures
            final(self).walk_utils == old(self).walk_utils,
            (HookProgress { state: final(self)@, visited: final(visited_symbols)@ }) == (match hook_context(
                old(self).scene(),
                old(self).scene().parent(call_node),
                false,
            ) {
                HookContext::Binding(var) => HookProgress {
                    state: hook_variable_binding(
                        old(self).scene(),
                        old(self)@,
                        var,
                        opt_text(namespace),
                        translation_names.deep_view(),
                    ),
                    visited: old(visited_symbols)@,
                },
                HookContext::Wrapper(wrapper) => process_hook(
                    old(self).scene(),
                    HookProgress { state: old(self)@, visited: old(visited_symbols)@ },
                    wrapper,
                    opt_text(namespace),
                    translation_names.deep_view(),
                    true,
                ),
                HookContext::Nothing => HookProgress {
                    state: old(self)@,
                    visited: old(visited_symbols)@,
                },
            }),
            final(visited_symbols).len() >= old(visited_symbols).len(),
        decreases budget(old(self).scene(), old(visited_symbols)@), 2nat,
    {
        let tree = self.walk_utils.tree;
        match tree.parent_node(call_node) {
            Some(parent) => match &tree.nodes[parent].kind {
                NodeKind::VariableDeclarator { .. } => {
                    self.handle_hook_variable_binding(parent, namespace, translation_names);
                    return ;
                },
                _ => {},
            },
            None => {},
        }
        self.handle_hook_wrapper_chain(call_node, namespace, translation_names, visited_symbols);
    }

    /// Follows hook call `call_node` through the function that returns it.
    pub fn handle_hook_wrapper_chain(
        &mut self,
        call_node: usize,
        namespace: Option<String>,
        translation_names: &Vec<String>,
        visited_symbols: &mut Vec<usize>,
    )
        requires
            old(self).wf(),
            call_node < old(self).walk_utils.tree.nodes.len(),
        ensures
            final(self).walk_utils == old(self).walk_utils,
            (HookProgress { state: final(self)@, visited: final(visited_symbols)@ }) == (match hook_context(
                old(self).scene(),
                old(self).scene().parent(call_node),
                false,
            ) {
                HookContext::Binding(var) => HookProgress {
                    state: hook_variable_binding(
                        old(self).scene(),
                        old(self)@,
                        var,
                        opt_text(namespace),
                        translation_names.deep_view(),
                    ),
                    visited: old(visited_symbols)@,
                },
                HookContext::Wrapper(wrapper) => process_hook(
                    old(self).scene(),
                    HookProgress { state: old(self)@, visited: old(visited_symbols)@ },
                    wrapper,
                    opt_text(namespace),
                    translation_names.deep_view(),
                    true,
                ),
                HookContext::Nothing => HookProgress {
                    state: old(self)@,
                    visited: old(visited_symbols)@,
                },
            }),
            final(visited_symbols).len() >= old(visited_symbols).len(),
        decreases budget(old(self).scene(), old(visited_symbols)@), 1nat,
    {
        match self.hook_context(call_node) {
            HookContext::Binding(var) => {
                self.handle_hook_variable_binding(var, namespace, translation_names);
            },
            HookContext::Wrapper(wrapper) => {
                self.process_hook_symbol_references(
                    wrapper,
                    namespace,
                    translation_names,
                    true,
                    visited_symbols,
                );
            },
            HookContext::Nothing => {},
        }
    }

    /// Reads the uses of the hook imported by specifier `s`, a member of a
    /// module with the exports `members`.
    pub fn read_hook(&mut self, s: usize, defined_ns: Option<String>, members: &Vec<Export>)
        requires
            old(self).wf(),
            s < old(self).walk_utils.tree.nodes.len(),
        ensures
            old(self).becomes(
                final(self),
                read_hook(
                    old(self).scene(),
                    old(self)@,
                    s,
                    opt_text(defined_ns),
                    exports_view(members@),
                ),
            ),
    {
        let tree = self.walk_utils.tree;
        match &tree.nodes[s].kind {
            NodeKind::ImportSpecifier { imported, local } => match &tree.nodes[*local].kind {
                NodeKind::BindingIdentifier { symbol, .. } => {
                    let translation_names = Self::collect_t_member_names(members);
                    self.register_translation_names(&translation_names);
                    let is_standard_hook = self.is_standard_hook_export(imported.as_str());
                    let mut visited_symbols: Vec<usize> = Vec::new();
                    self.process_hook_symbol_references(
                        *symbol,
                        defined_ns,
                        &translation_names,
                        is_standard_hook,
                        &mut visited_symbols,
                    );
                },
                _ => {},
            },
            _ => {},
        }
    }

    fn namespace_member(&mut self, member: usize, members: &Vec<Export>)
        requires
            old(self).wf(),
            member < old(self).walk_utils.tree.nodes.len(),
        ensures
            old(self).becomes(
                final(self),
                namespace_member(old(self).scene(), old(self)@, member, exports_view(members@)),
            ),
    {
        let tree = self.walk_utils.tree;
        match &tree.nodes[member].kind {
            NodeKind::Member { property: Some(property), .. } => {
                match (find_i18n_member(members, property.as_str()), tree.parent_node(member)) {
                    (Some(info), Some(call)) => match &tree.nodes[call].kind {
                        NodeKind::Call { .. } => match info.kind {
                            I18nType::Hook => match tree.parent_node(call) {
                                Some(var) => match &tree.nodes[var].kind {
                                    NodeKind::VariableDeclarator { .. } => {
                                        let namespace = self.read_hook_from_namespace(call, &info.ns);
                                        let translation_names = Self::collect_t_member_names(
                                            members,
                                        );
                                        self.handle_hook_variable_binding(
                                            var,
                                            namespace,
                                            &translation_names,
                                        );
                                    },
                                    _ => {},
                                },
                                None => {},
                            },
                            I18nType::TMethod => {
                                self.read_t_arguments(call, clone_opt_text(&info.ns));
                            },
                            _ => {},
                        },
                        _ => {},
                    },
                    _ => {},
                }
            },
            _ => {},
        }
    }

    /// Reads the uses of the namespace import `symbol_id` of a module with the exports `members`.
    pub fn read_namespace_import(&mut self, symbol_id: usize, members: &Vec<Export>)
        requires
            old(self).wf(),
            symbol_id < old(self).walk_utils.tree.symbols.len(),
        ensures
            old(self).becomes(
                final(self),
                read_namespace_import(
                    old(self).scene(),
                    old(self)@,
                    symbol_id,
                    exports_view(members@),
                ),
            ),
    {
        let tree = self.walk_utils.tree;
        let ghost scene = self.scene();
        let ghost views = exports_view(members@);
        let count = tree.symbols[symbol_id].references.len();
        let mut k: usize = 0;
        while k < count
            invariant
                self.wf(),
                self.walk_utils == old(self).walk_utils,
                tree == self.walk_utils.tree,
                scene == self.scene(),
                views == exports_view(members@),
                symbol_id < tree.symbols.len(),
                count == tree.symbols[symbol_id as int].references.len(),
                k <= count,
                read_namespace_import_from(scene, self@, symbol_id, views, k as int)
                    == read_namespace_import_from(scene, old(self)@, symbol_id, views, 0),
            decreases count - k,
        {
            match self.reference_parent(symbol_id, k) {
                Some(parent) => {
                    self.namespace_member(parent, members);
                },
                None => {},
            }
            k += 1;
        }
    }
}

} // verus!
