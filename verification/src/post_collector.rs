//! Keys whose text is not known while a file is walked.

use crate::collector::keys::{add_key, KeyTable, NamespaceView};
use crate::node::NodeView;
use crate::node_store::{importing_index, node_index, NodeStore};
use crate::text::{opt_text, text_eq};
use vstd::prelude::*;

verus! {

/// A name that has to be looked up in another module.
pub struct KeyRef {
    pub member: String,
    pub node: String,
}

/// One part of a key: literal text, or a reference still to be resolved.
pub enum KeyPath {
    String(String),
    LinkedKey(KeyRef),
}

/// A `KeyPath` as characters.
pub enum PartView {
    Text(Seq<char>),
    Link { node: Seq<char>, member: Seq<char> },
}

impl View for KeyPath {
    type V = PartView;

    open spec fn view(&self) -> PartView {
        match *self {
            KeyPath::String(text) => PartView::Text(text@),
            KeyPath::LinkedKey(link) => PartView::Link { node: link.node@, member: link.member@ },
        }
    }
}

/// The views of a list of parts.
pub open spec fn parts_view(parts: Seq<KeyPath>) -> Seq<PartView> {
    parts.map_values(|p: KeyPath| p@)
}

impl KeyPath {
    pub fn from_string(s: String) -> (path: Self)
        ensures
            path == KeyPath::String(s),
    {
        Self::String(s)
    }

    pub fn from_node(node: String, member: String) -> (path: Self)
        ensures
            path == KeyPath::LinkedKey(KeyRef { member, node }),
    {
        Self::LinkedKey(KeyRef { member, node })
    }
}

/// A name of a module together with the parts its value is made of.
pub struct LocalValue {
    pub name: String,
    pub value: Vec<KeyPath>,
}

/// `import { imported as local } from 'source'`.
pub struct ImportedName {
    pub local: String,
    pub source: String,
    pub imported: String,
}

/// `export { local as name }`, with `source` set for `export { local as name } from 'source'`.
pub struct ExportedName {
    pub name: String,
    pub local: String,
    pub source: Option<String>,
}

/// A `LocalValue` as characters.
pub struct LocalView {
    pub name: Seq<char>,
    pub value: Seq<PartView>,
}

impl View for LocalValue {
    type V = LocalView;

    open spec fn view(&self) -> LocalView {
        LocalView { name: self.name@, value: parts_view(self.value@) }
    }
}

/// An `ImportedName` as characters.
pub struct ImportedView {
    pub local: Seq<char>,
    pub source: Seq<char>,
    pub imported: Seq<char>,
}

impl View for ImportedName {
    type V = ImportedView;

    open spec fn view(&self) -> ImportedView {
        ImportedView { local: self.local@, source: self.source@, imported: self.imported@ }
    }
}

/// An `ExportedName` as characters.
pub struct ExportedView {
    pub name: Seq<char>,
    pub local: Seq<char>,
    pub source: Option<Seq<char>>,
}

impl View for ExportedName {
    type V = ExportedView;

    open spec fn view(&self) -> ExportedView {
        ExportedView { name: self.name@, local: self.local@, source: opt_text(self.source) }
    }
}

/// `return callee(argument)`: the name that is called, and the pattern of the
/// argument when it is a template with one hole.
pub struct ReturnedCall {
    pub callee: String,
    pub pattern: Option<String>,
}

/// A `ReturnedCall` as characters.
pub struct ReturnedView {
    pub callee: Seq<char>,
    pub pattern: Option<Seq<char>>,
}

impl View for ReturnedCall {
    type V = ReturnedView;

    open spec fn view(&self) -> ReturnedView {
        ReturnedView { callee: self.callee@, pattern: opt_text(self.pattern) }
    }
}

/// A `ModuleInfo` as characters.
pub struct ModuleView {
    pub locals: Seq<LocalView>,
    pub imports: Seq<ImportedView>,
    pub export_values: Seq<LocalView>,
    pub export_names: Seq<ExportedView>,
    pub default_export: Option<Seq<char>>,
    pub returned_calls: Seq<ReturnedView>,
}

/// What a module binds at its top level, as far as key resolution needs it.
pub struct ModuleInfo {
    /// `const name = value`, exported or not.
    pub locals: Vec<LocalValue>,
    /// The names brought in by import declarations.
    pub imports: Vec<ImportedName>,
    /// `export const name = value`.
    pub export_values: Vec<LocalValue>,
    /// The names handed out by export lists.
    pub export_names: Vec<ExportedName>,
    /// The identifier of `export default identifier`.
    pub default_export: Option<String>,
    /// The calls that the functions of the module return, in source order.
    pub returned_calls: Vec<ReturnedCall>,
}

impl View for ModuleInfo {
    type V = ModuleView;

    open spec fn view(&self) -> ModuleView {
        ModuleView {
            locals: self.locals@.map_values(|l: LocalValue| l@),
            imports: self.imports@.map_values(|i: ImportedName| i@),
            export_values: self.export_values@.map_values(|l: LocalValue| l@),
            export_names: self.export_names@.map_values(|e: ExportedName| e@),
            default_export: opt_text(self.default_export),
            returned_calls: self.returned_calls@.map_values(|r: ReturnedCall| r@),
        }
    }
}

fn clone_parts(parts: &Vec<KeyPath>) -> (copy: Vec<KeyPath>)
    ensures
        parts_view(copy@) == parts_view(parts@),
{
    let mut copy: Vec<KeyPath> = Vec::new();
    let mut i: usize = 0;
    while i < parts.len()
        invariant
            i <= parts.len(),
            copy.len() == i,
            forall|k: int| 0 <= k < i ==> copy[k]@ == parts[k]@,
        decreases parts.len() - i,
    {
        let part = match &parts[i] {
            KeyPath::String(text) => KeyPath::String(text.clone()),
            KeyPath::LinkedKey(link) => KeyPath::LinkedKey(
                KeyRef { member: link.member.clone(), node: link.node.clone() },
            ),
        };
        copy.push(part);
        i += 1;
    }
    assert(parts_view(copy@) =~= parts_view(parts@));
    copy
}

fn clone_values(values: &Vec<LocalValue>) -> (copy: Vec<LocalValue>)
    ensures
        copy@.map_values(|l: LocalValue| l@) == values@.map_values(|l: LocalValue| l@),
{
    let mut copy: Vec<LocalValue> = Vec::new();
    let mut i: usize = 0;
    while i < values.len()
        invariant
            i <= values.len(),
            copy.len() == i,
            forall|k: int| 0 <= k < i ==> copy[k]@ == values[k]@,
        decreases values.len() - i,
    {
        copy.push(LocalValue { name: values[i].name.clone(), value: clone_parts(&values[i].value) });
        i += 1;
    }
    assert(copy@.map_values(|l: LocalValue| l@) =~= values@.map_values(|l: LocalValue| l@));
    copy
}

impl ModuleInfo {
    /// A copy of what the module binds.
    pub fn copy(&self) -> (copy: ModuleInfo)
        ensures
            copy@ == self@,
    {
        let mut imports: Vec<ImportedName> = Vec::new();
        let mut i: usize = 0;
        while i < self.imports.len()
            invariant
                i <= self.imports.len(),
                imports.len() == i,
                forall|k: int| 0 <= k < i ==> imports[k]@ == self.imports[k]@,
            decreases self.imports.len() - i,
        {
            let entry = &self.imports[i];
            imports.push(
                ImportedName {
                    local: entry.local.clone(),
                    source: entry.source.clone(),
                    imported: entry.imported.clone(),
                },
            );
            i += 1;
        }
        let mut export_names: Vec<ExportedName> = Vec::new();
        let mut j: usize = 0;
        while j < self.export_names.len()
            invariant
                j <= self.export_names.len(),
                export_names.len() == j,
                forall|k: int| 0 <= k < j ==> export_names[k]@ == self.export_names[k]@,
            decreases self.export_names.len() - j,
        {
            let entry = &self.export_names[j];
            export_names.push(
                ExportedName {
                    name: entry.name.clone(),
                    local: entry.local.clone(),
                    source: crate::text::clone_opt_text(&entry.source),
                },
            );
            j += 1;
        }
        let mut returned_calls: Vec<ReturnedCall> = Vec::new();
        let mut r: usize = 0;
        while r < self.returned_calls.len()
            invariant
                r <= self.returned_calls.len(),
                returned_calls.len() == r,
                forall|k: int| 0 <= k < r ==> returned_calls[k]@ == self.returned_calls[k]@,
            decreases self.returned_calls.len() - r,
        {
            let entry = &self.returned_calls[r];
            returned_calls.push(
                ReturnedCall {
                    callee: entry.callee.clone(),
                    pattern: crate::text::clone_opt_text(&entry.pattern),
                },
            );
            r += 1;
        }
        let copy = ModuleInfo {
            locals: clone_values(&self.locals),
            imports,
            export_values: clone_values(&self.export_values),
            export_names,
            default_export: crate::text::clone_opt_text(&self.default_export),
            returned_calls,
        };
        assert(copy@.imports =~= self@.imports);
        assert(copy@.export_names =~= self@.export_names);
        assert(copy@.returned_calls =~= self@.returned_calls);
        copy
    }

    /// Nothing is bound.
    pub open spec fn is_empty(&self) -> bool {
        &&& self.locals@.len() == 0
        &&& self.imports@.len() == 0
        &&& self.export_values@.len() == 0
        &&& self.export_names@.len() == 0
        &&& self.default_export is None
        &&& self.returned_calls@.len() == 0
    }

    /// The module that binds nothing.
    pub fn empty() -> (info: ModuleInfo)
        ensures
            info.is_empty(),
    {
        ModuleInfo {
            locals: Vec::new(),
            imports: Vec::new(),
            export_values: Vec::new(),
            export_names: Vec::new(),
            default_export: None,
            returned_calls: Vec::new(),
        }
    }
}

/// Pairs of (namespace parts, key parts) waiting for resolution, oldest first.
pub struct PostCollector(pub Vec<(Vec<KeyPath>, Vec<KeyPath>)>);

impl View for PostCollector {
    type V = Seq<(Seq<PartView>, Seq<PartView>)>;

    open spec fn view(&self) -> Seq<(Seq<PartView>, Seq<PartView>)> {
        self.0@.map_values(|e: (Vec<KeyPath>, Vec<KeyPath>)| (parts_view(e.0@), parts_view(e.1@)))
    }
}

impl PostCollector {
    pub fn new() -> (collector: Self)
        ensures
            collector@ == Seq::<(Seq<PartView>, Seq<PartView>)>::empty(),
    {
        let collector = Self(Vec::new());
        assert(collector@ =~= Seq::<(Seq<PartView>, Seq<PartView>)>::empty());
        collector
    }

    pub fn add(&mut self, key_path: Vec<KeyPath>, value_path: Vec<KeyPath>)
        ensures
            final(self).0@ == old(self).0@.push((key_path, value_path)),
            final(self)@ == old(self)@.push((parts_view(key_path@), parts_view(value_path@))),
    {
        self.0.push((key_path, value_path));
        assert(self@ =~= old(self)@.push((parts_view(key_path@), parts_view(value_path@))));
    }
}

/// The first entry of `values[from..]` that carries `name`.
pub open spec fn value_index_from(values: Seq<LocalView>, name: Seq<char>, from: int) -> Option<int>
    decreases values.len() - from,
{
    if from < 0 || from >= values.len() {
        None
    } else if values[from].name == name {
        Some(from)
    } else {
        value_index_from(values, name, from + 1)
    }
}

/// The first entry of `imports[from..]` whose local name is `name`.
pub open spec fn import_index_from(imports: Seq<ImportedView>, name: Seq<char>, from: int) -> Option<
    int,
>
    decreases imports.len() - from,
{
    if from < 0 || from >= imports.len() {
        None
    } else if imports[from].local == name {
        Some(from)
    } else {
        import_index_from(imports, name, from + 1)
    }
}

/// The first entry of `exports[from..]` that hands out `name`.
pub open spec fn exported_index_from(exports: Seq<ExportedView>, name: Seq<char>, from: int) -> Option<
    int,
>
    decreases exports.len() - from,
{
    if from < 0 || from >= exports.len() {
        None
    } else if exports[from].name == name {
        Some(from)
    } else {
        exported_index_from(exports, name, from + 1)
    }
}

/// The text that `name` stands for in the module of node `file`.
///
/// A constant of the module decides first. With `deep` set, a name that the
/// module imports is looked up among the exports of the module it comes from,
/// and any other name among the module's own exports. At most `fuel` names are
/// followed one after the other, so a definition that leads back to itself
/// has no text.
pub open spec fn resolve_name(store: Seq<NodeView>, file: int, name: Seq<char>, deep: bool, fuel: nat) -> Option<
    Seq<char>,
>
    decreases fuel, 0nat, 0nat,
{
    if fuel == 0 || file < 0 || file >= store.len() {
        None
    } else {
        let module = store[file].module;
        match value_index_from(module.locals, name, 0) {
            Some(i) => resolve_parts(store, module.locals[i].value, 0, deep, (fuel - 1) as nat),
            None => if !deep {
                None
            } else {
                match import_index_from(module.imports, name, 0) {
                    Some(i) => match importing_index(store, file, module.imports[i].source) {
                        Some(target) => resolve_export(
                            store,
                            target,
                            module.imports[i].imported,
                            deep,
                            (fuel - 1) as nat,
                        ),
                        None => None,
                    },
                    None => resolve_export(store, file, name, deep, (fuel - 1) as nat),
                }
            },
        }
    }
}

/// The text that the module of node `file` exports under `name`.
///
/// An exported constant decides first. With `deep` set an export list comes
/// next, which may pass on a local name or a name of another module, and last
/// the identifier of the default export for the name `default`.
pub open spec fn resolve_export(store: Seq<NodeView>, file: int, name: Seq<char>, deep: bool, fuel: nat) -> Option<
    Seq<char>,
>
    decreases fuel, 0nat, 0nat,
{
    if fuel == 0 || file < 0 || file >= store.len() {
        None
    } else {
        let module = store[file].module;
        match value_index_from(module.export_values, name, 0) {
            Some(i) => resolve_parts(
                store,
                module.export_values[i].value,
                0,
                deep,
                (fuel - 1) as nat,
            ),
            None => if !deep {
                None
            } else {
                match exported_index_from(module.export_names, name, 0) {
                    Some(i) => match module.export_names[i].source {
                        None => resolve_name(
                            store,
                            file,
                            module.export_names[i].local,
                            deep,
                            (fuel - 1) as nat,
                        ),
                        Some(source) => match importing_index(store, file, source) {
                            Some(target) => resolve_export(
                                store,
                                target,
                                module.export_names[i].local,
                                deep,
                                (fuel - 1) as nat,
                            ),
                            None => None,
                        },
                    },
                    None => match module.default_export {
                        Some(identifier) => if name == "default"@ {
                            resolve_name(store, file, identifier, deep, (fuel - 1) as nat)
                        } else {
                            None
                        },
                        None => None,
                    },
                }
            },
        }
    }
}

/// The text of one part: its own text, or the text that the name it links to stands for.
pub open spec fn resolve_part(store: Seq<NodeView>, part: PartView, deep: bool, fuel: nat) -> Option<
    Seq<char>,
>
    decreases fuel, 1nat, 0nat,
{
    match part {
        PartView::Text(text) => Some(text),
        PartView::Link { node, member } => match node_index(store, node) {
            Some(file) => resolve_name(store, file, member, deep, fuel),
            None => None,
        },
    }
}

/// The texts of `parts[from..]` in a row; `None` as soon as one part has no text.
pub open spec fn resolve_parts(store: Seq<NodeView>, parts: Seq<PartView>, from: int, deep: bool, fuel: nat) -> Option<
    Seq<char>,
>
    decreases fuel, 2nat, parts.len() - from,
{
    if from < 0 || from >= parts.len() {
        Some(Seq::empty())
    } else {
        match resolve_part(store, parts[from], deep, fuel) {
            Some(head) => match resolve_parts(store, parts, from + 1, deep, fuel) {
                Some(rest) => Some(head + rest),
                None => None,
            },
            None => None,
        }
    }
}

fn find_value(values: &Vec<LocalValue>, name: &str) -> (found: Option<usize>)
    ensures
        match found {
            Some(i) => value_index_from(values@.map_values(|l: LocalValue| l@), name@, 0) == Some(
                i as int,
            ) && i < values.len(),
            None => value_index_from(values@.map_values(|l: LocalValue| l@), name@, 0) is None,
        },
{
    let mut i: usize = 0;
    while i < values.len()
        invariant
            i <= values.len(),
            value_index_from(values@.map_values(|l: LocalValue| l@), name@, i as int)
                == value_index_from(values@.map_values(|l: LocalValue| l@), name@, 0),
        decreases values.len() - i,
    {
        if text_eq(values[i].name.as_str(), name) {
            return Some(i);
        }
        i += 1;
    }
    None
}

fn find_import(imports: &Vec<ImportedName>, name: &str) -> (found: Option<usize>)
    ensures
        match found {
            Some(i) => import_index_from(imports@.map_values(|e: ImportedName| e@), name@, 0)
                == Some(i as int) && i < imports.len(),
            None => import_index_from(imports@.map_values(|e: ImportedName| e@), name@, 0) is None,
        },
{
    let mut i: usize = 0;
    while i < imports.len()
        invariant
            i <= imports.len(),
            import_index_from(imports@.map_values(|e: ImportedName| e@), name@, i as int)
                == import_index_from(imports@.map_values(|e: ImportedName| e@), name@, 0),
        decreases imports.len() - i,
    {
        if text_eq(imports[i].local.as_str(), name) {
            return Some(i);
        }
        i += 1;
    }
    None
}

fn find_exported(exports: &Vec<ExportedName>, name: &str) -> (found: Option<usize>)
    ensures
        match found {
            Some(i) => exported_index_from(exports@.map_values(|e: ExportedName| e@), name@, 0)
                == Some(i as int) && i < exports.len(),
            None => exported_index_from(exports@.map_values(|e: ExportedName| e@), name@, 0) is None,
        },
{
    let mut i: usize = 0;
    while i < exports.len()
        invariant
            i <= exports.len(),
            exported_index_from(exports@.map_values(|e: ExportedName| e@), name@, i as int)
                == exported_index_from(exports@.map_values(|e: ExportedName| e@), name@, 0),
        decreases exports.len() - i,
    {
        if text_eq(exports[i].name.as_str(), name) {
            return Some(i);
        }
        i += 1;
    }
    None
}

/// The text that `name` stands for in the module of node `file`.
pub fn resolve_name_in(store: &NodeStore, file: usize, name: &str, deep: bool, fuel: usize) -> (text:
    Option<String>)
    ensures
        opt_text(text) == resolve_name(store@, file as int, name@, deep, fuel as nat),
    decreases fuel, 0nat,
{
    if fuel == 0 || file >= store.nodes.len() {
        return None;
    }
    let module = &store.nodes[file].module;
    assert(store@[file as int] == store.nodes[file as int]@);
    match find_value(&module.locals, name) {
        Some(i) => resolve_parts_in(store, &module.locals[i].value, deep, fuel - 1),
        None => {
            if !deep {
                return None;
            }
            match find_import(&module.imports, name) {
                Some(i) => match store.importing_node(file, module.imports[i].source.as_str()) {
                    Some(target) => resolve_export_in(
                        store,
                        target,
                        module.imports[i].imported.as_str(),
                        deep,
                        fuel - 1,
                    ),
                    None => None,
                },
                None => resolve_export_in(store, file, name, deep, fuel - 1),
            }
        },
    }
}

/// The text that the module of node `file` exports under `name`.
pub fn resolve_export_in(store: &NodeStore, file: usize, name: &str, deep: bool, fuel: usize) -> (text:
    Option<String>)
    ensures
        opt_text(text) == resolve_export(store@, file as int, name@, deep, fuel as nat),
    decreases fuel, 0nat,
{
    if fuel == 0 || file >= store.nodes.len() {
        return None;
    }
    let module = &store.nodes[file].module;
    assert(store@[file as int] == store.nodes[file as int]@);
    match find_value(&module.export_values, name) {
        Some(i) => resolve_parts_in(store, &module.export_values[i].value, deep, fuel - 1),
        None => {
            if !deep {
                return None;
            }
            match find_exported(&module.export_names, name) {
                Some(i) => match &module.export_names[i].source {
                    None => resolve_name_in(
                        store,
                        file,
                        module.export_names[i].local.as_str(),
                        deep,
                        fuel - 1,
                    ),
                    Some(source) => match store.importing_node(file, source.as_str()) {
                        Some(target) => resolve_export_in(
                            store,
                            target,
                            module.export_names[i].local.as_str(),
                            deep,
                            fuel - 1,
                        ),
                        None => None,
                    },
                },
                None => match &module.default_export {
                    Some(identifier) => {
                        if text_eq(name, "default") {
                            resolve_name_in(store, file, identifier.as_str(), deep, fuel - 1)
                        } else {
                            None
                        }
                    },
                    None => None,
                },
            }
        },
    }
}

/// The texts of `parts` in a row; `None` as soon as one part has no text.
pub fn resolve_parts_in(store: &NodeStore, parts: &Vec<KeyPath>, deep: bool, fuel: usize) -> (text:
    Option<String>)
    ensures
        opt_text(text) == resolve_parts(store@, parts_view(parts@), 0, deep, fuel as nat),
    decreases fuel, 1nat,
{
    let ghost views = parts_view(parts@);
    let mut text = String::new();
    let mut i: usize = 0;
    while i < parts.len()
        invariant
            i <= parts.len(),
            views == parts_view(parts@),
            match resolve_parts(store@, views, i as int, deep, fuel as nat) {
                Some(rest) => resolve_parts(store@, views, 0, deep, fuel as nat) == Some(
                    text@ + rest,
                ),
                None => resolve_parts(store@, views, 0, deep, fuel as nat) is None,
            },
        decreases parts.len() - i,
    {
        let ghost before = text@;
        assert(views[i as int] == parts[i as int]@);
        match &parts[i] {
            KeyPath::String(piece) => {
                text.append(piece.as_str());
            },
            KeyPath::LinkedKey(link) => {
                let found = match store.index_of(link.node.as_str()) {
                    Some(file) => resolve_name_in(store, file, link.member.as_str(), deep, fuel),
                    None => None,
                };
                match found {
                    Some(piece) => {
                        text.append(piece.as_str());
                    },
                    None => {
                        return None;
                    },
                }
            },
        }
        proof {
            let head = resolve_part(store@, views[i as int], deep, fuel as nat)->0;
            assert(text@ == before + head);
            match resolve_parts(store@, views, i + 1, deep, fuel as nat) {
                Some(rest) => {
                    assert(before + (head + rest) =~= text@ + rest);
                },
                None => {},
            }
        }
        i += 1;
    }
    assert(text@ + Seq::<char>::empty() =~= text@);
    Some(text)
}

/// The sum of `a` and `b`, but not more than the largest machine integer.
pub open spec fn capped_sum(a: nat, b: nat) -> nat {
    if a + b > usize::MAX {
        usize::MAX as nat
    } else {
        a + b
    }
}

/// How many names the module binds, counted generously.
pub open spec fn module_names(module: ModuleView) -> nat {
    capped_sum(
        capped_sum(
            capped_sum(
                capped_sum(module.locals.len() as nat, module.imports.len() as nat),
                module.export_values.len() as nat,
            ),
            module.export_names.len() as nat,
        ),
        2,
    )
}

/// `total` and the names of the modules `from..`, added up.
pub open spec fn deep_limit_from(store: Seq<NodeView>, from: int, total: nat) -> nat
    decreases store.len() - from,
{
    if from < 0 || from >= store.len() {
        total
    } else {
        deep_limit_from(store, from + 1, capped_sum(total, module_names(store[from].module)))
    }
}

/// How many names are followed across modules: as many as all modules
/// together bind, which every chain without a loop fits in.
pub open spec fn deep_limit(store: Seq<NodeView>) -> nat {
    deep_limit_from(store, 0, 0)
}

/// `keys` after the waiting keys `pending[from..]` were looked up: a key whose
/// namespace and text are both found joins its namespace; any other is left out.
pub open spec fn settled(
    store: Seq<NodeView>,
    keys: Seq<NamespaceView>,
    pending: Seq<(Seq<PartView>, Seq<PartView>)>,
    from: int,
) -> Seq<NamespaceView>
    decreases pending.len() - from,
{
    if from < 0 || from >= pending.len() {
        keys
    } else {
        let next = match (
            resolve_parts(store, pending[from].0, 0, true, deep_limit(store)),
            resolve_parts(store, pending[from].1, 0, true, deep_limit(store)),
        ) {
            (Some(namespace), Some(key)) => add_key(keys, namespace, key),
            _ => keys,
        };
        settled(store, next, pending, from + 1)
    }
}

fn add_capped(a: usize, b: usize) -> (sum: usize)
    ensures
        sum == capped_sum(a as nat, b as nat),
{
    if b > usize::MAX - a {
        usize::MAX
    } else {
        a + b
    }
}

/// How many names are followed across modules.
pub fn deep_limit_of(store: &NodeStore) -> (limit: usize)
    ensures
        limit == deep_limit(store@),
{
    let mut total: usize = 0;
    let mut i: usize = 0;
    while i < store.nodes.len()
        invariant
            i <= store.nodes.len(),
            deep_limit_from(store@, i as int, total as nat) == deep_limit(store@),
        decreases store.nodes.len() - i,
    {
        let module = &store.nodes[i].module;
        assert(store@[i as int].module == store.nodes[i as int].module@);
        let names = add_capped(
            add_capped(
                add_capped(
                    add_capped(module.locals.len(), module.imports.len()),
                    module.export_values.len(),
                ),
                module.export_names.len(),
            ),
            2,
        );
        total = add_capped(total, names);
        i += 1;
    }
    total
}

impl PostCollector {
    /// Looks up the waiting keys in the modules of `store` and records those
    /// that are found in `keys`.
    pub fn resolve_into(&self, store: &NodeStore, keys: &mut KeyTable)
        ensures
            final(keys)@ == settled(store@, old(keys)@, self@, 0),
    {
        let limit = deep_limit_of(store);
        let mut i: usize = 0;
        while i < self.0.len()
            invariant
                i <= self.0.len(),
                limit == deep_limit(store@),
                settled(store@, keys@, self@, i as int) == settled(store@, old(keys)@, self@, 0),
            decreases self.0.len() - i,
        {
            assert(self@[i as int] == (parts_view(self.0[i as int].0@), parts_view(self.0[i as int].1@)));
            let namespace = resolve_parts_in(store, &self.0[i].0, true, limit);
            let key = resolve_parts_in(store, &self.0[i].1, true, limit);
            match (namespace, key) {
                (Some(namespace), Some(key)) => {
                    keys.add_key(namespace.as_str(), key);
                },
                _ => {},
            }
            i += 1;
        }
    }
}

} // verus!
