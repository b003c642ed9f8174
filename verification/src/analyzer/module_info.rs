//! What a file binds at its top level, read off its tree once, so that keys
//! that name a constant of another file can be looked up later.

use crate::collector::hooks::template_pattern;
use crate::post_collector::{
    parts_view, ExportedName, ExportedView, ImportedName, ImportedView, KeyPath, LocalValue,
    LocalView, ModuleInfo, ModuleView, PartView, ReturnedCall, ReturnedView,
};
use crate::syntax::{all_after, NodeKind, SyntaxTree};
use crate::text::{clone_opt_text, opt_text, text_concat};
use crate::walk_utils::{argument_expression, Scene};
use vstd::prelude::*;

verus! {

/// The parts that the value of expression `id` is made of: texts, and names of
/// the file at `file` that stand for a text. `None` for any other expression.
pub open spec fn value_parts(tree: SyntaxTree, file: Seq<char>, id: usize) -> Option<Seq<PartView>>
    decreases tree.nodes.len() - id, 1nat, 0int,
    when tree.wf() && id < tree.nodes.len()
{
    match tree.nodes[id as int].kind {
        NodeKind::StringLiteral { value } => Some(seq![PartView::Text(value@)]),
        NodeKind::TemplateLiteral { .. } => template_parts(tree, file, id, 0),
        NodeKind::Identifier { name, .. } => Some(seq![PartView::Link { node: file, member: name@ }]),
        NodeKind::Binary { addition, left, right } => if addition {
            match (value_parts(tree, file, left), value_parts(tree, file, right)) {
                (Some(head), Some(tail)) => Some(head + tail),
                _ => None,
            }
        } else {
            None
        },
        _ => None,
    }
}

/// The parts of the pieces `from..` of template `id` and of the expressions between them.
pub open spec fn template_parts(tree: SyntaxTree, file: Seq<char>, id: usize, from: int) -> Option<
    Seq<PartView>,
>
    decreases tree.nodes.len() - id, 0nat, tree.nodes[id as int].kind->quasis.len() - from,
    when tree.wf() && id < tree.nodes.len() && tree.nodes[id as int].kind is TemplateLiteral
{
    let quasis = tree.nodes[id as int].kind->quasis;
    let expressions = tree.nodes[id as int].kind->TemplateLiteral_expressions;
    if from < 0 || from >= quasis.len() {
        Some(Seq::empty())
    } else {
        let hole = if from < expressions.len() {
            value_parts(tree, file, expressions[from])
        } else {
            Some(Seq::empty())
        };
        match (hole, template_parts(tree, file, id, from + 1)) {
            (Some(value), Some(rest)) => Some(seq![PartView::Text(quasis[from]@)] + value + rest),
            _ => None,
        }
    }
}

/// The constant that declarator `id` binds, if it binds a plain name to a
/// value that is made of parts.
pub open spec fn declared_constant(tree: SyntaxTree, file: Seq<char>, id: usize) -> Option<LocalView> {
    match tree.nodes[id as int].kind {
        NodeKind::VariableDeclarator { id: target, init: Some(init) } => match tree.nodes[target as int].kind {
            NodeKind::BindingIdentifier { name, .. } => match value_parts(tree, file, init) {
                Some(value) => Some(LocalView { name: name@, value }),
                None => None,
            },
            _ => None,
        },
        _ => None,
    }
}

/// The constants bound by the declarators `from..`.
pub open spec fn constants_from(tree: SyntaxTree, file: Seq<char>, declarations: Seq<usize>, from: int) -> Seq<
    LocalView,
>
    decreases declarations.len() - from,
{
    if from < 0 || from >= declarations.len() {
        Seq::empty()
    } else {
        let rest = constants_from(tree, file, declarations, from + 1);
        match declared_constant(tree, file, declarations[from]) {
            Some(constant) => seq![constant] + rest,
            None => rest,
        }
    }
}

/// The declarators of statement `id`: those of a variable declaration, exported or not.
/// With `exported` set only an exported declaration counts.
pub open spec fn statement_declarations(tree: SyntaxTree, id: usize, exported: bool) -> Seq<usize> {
    match tree.nodes[id as int].kind {
        NodeKind::VariableDeclaration { declarations } => if exported {
            Seq::empty()
        } else {
            declarations@
        },
        NodeKind::ExportNamed { declaration: Some(declared), .. } => match tree.nodes[declared as int].kind {
            NodeKind::VariableDeclaration { declarations } => declarations@,
            _ => Seq::empty(),
        },
        _ => Seq::empty(),
    }
}

/// The constants bound by the statements `from..`.
pub open spec fn statement_constants_from(
    tree: SyntaxTree,
    file: Seq<char>,
    statements: Seq<usize>,
    exported: bool,
    from: int,
) -> Seq<LocalView>
    decreases statements.len() - from,
{
    if from < 0 || from >= statements.len() {
        Seq::empty()
    } else {
        constants_from(tree, file, statement_declarations(tree, statements[from], exported), 0)
            + statement_constants_from(tree, file, statements, exported, from + 1)
    }
}

/// The name that import specifier `id` brings in from `source`.
pub open spec fn imported_name(tree: SyntaxTree, source: Seq<char>, id: usize) -> Option<ImportedView> {
    let bound = match tree.nodes[id as int].kind {
        NodeKind::ImportSpecifier { imported, local } => Some((imported@, local)),
        NodeKind::ImportDefaultSpecifier { local } => Some(("default"@, local)),
        NodeKind::ImportNamespaceSpecifier { local } => Some(("*"@, local)),
        _ => None,
    };
    match bound {
        Some((imported, local)) => match tree.nodes[local as int].kind {
            NodeKind::BindingIdentifier { name, .. } => Some(
                ImportedView { local: name@, source, imported },
            ),
            _ => None,
        },
        None => None,
    }
}

/// The names that the import specifiers `from..` bring in from `source`.
pub open spec fn imported_names_from(tree: SyntaxTree, source: Seq<char>, specifiers: Seq<usize>, from: int) -> Seq<
    ImportedView,
>
    decreases specifiers.len() - from,
{
    if from < 0 || from >= specifiers.len() {
        Seq::empty()
    } else {
        let rest = imported_names_from(tree, source, specifiers, from + 1);
        match imported_name(tree, source, specifiers[from]) {
            Some(name) => seq![name] + rest,
            None => rest,
        }
    }
}

/// The names that statement `id` brings in.
pub open spec fn statement_imports(tree: SyntaxTree, id: usize) -> Seq<ImportedView> {
    match tree.nodes[id as int].kind {
        NodeKind::ImportDeclaration { source, specifiers: Some(specifiers) } => imported_names_from(
            tree,
            source@,
            specifiers@,
            0,
        ),
        _ => Seq::empty(),
    }
}

/// The names that the statements `from..` bring in.
pub open spec fn imports_from(tree: SyntaxTree, statements: Seq<usize>, from: int) -> Seq<ImportedView>
    decreases statements.len() - from,
{
    if from < 0 || from >= statements.len() {
        Seq::empty()
    } else {
        statement_imports(tree, statements[from]) + imports_from(tree, statements, from + 1)
    }
}

/// The names that the export specifiers `from..` hand out.
pub open spec fn exported_list_from(tree: SyntaxTree, source: Option<Seq<char>>, specifiers: Seq<usize>, from: int) -> Seq<
    ExportedView,
>
    decreases specifiers.len() - from,
{
    if from < 0 || from >= specifiers.len() {
        Seq::empty()
    } else {
        let rest = exported_list_from(tree, source, specifiers, from + 1);
        match tree.nodes[specifiers[from] as int].kind {
            NodeKind::ExportSpecifier { local_name, exported, .. } => seq![
                ExportedView { name: exported@, local: local_name@, source },
            ] + rest,
            _ => rest,
        }
    }
}

/// The names that statement `id` hands out through an export list.
pub open spec fn statement_exports(tree: SyntaxTree, id: usize) -> Seq<ExportedView> {
    match tree.nodes[id as int].kind {
        NodeKind::ExportNamed { specifiers, source, .. } => exported_list_from(
            tree,
            opt_text(source),
            specifiers@,
            0,
        ),
        _ => Seq::empty(),
    }
}

/// The names that the statements `from..` hand out through export lists.
pub open spec fn exports_from(tree: SyntaxTree, statements: Seq<usize>, from: int) -> Seq<ExportedView>
    decreases statements.len() - from,
{
    if from < 0 || from >= statements.len() {
        Seq::empty()
    } else {
        statement_exports(tree, statements[from]) + exports_from(tree, statements, from + 1)
    }
}

/// The identifier of the first `export default identifier` among the statements `from..`.
pub open spec fn default_from(tree: SyntaxTree, statements: Seq<usize>, from: int) -> Option<Seq<char>>
    decreases statements.len() - from,
{
    if from < 0 || from >= statements.len() {
        None
    } else {
        let here = match tree.nodes[statements[from] as int].kind {
            NodeKind::ExportDefault { declaration } => match tree.nodes[declaration as int].kind {
                NodeKind::Identifier { name, .. } => Some(name@),
                _ => None,
            },
            _ => None,
        };
        match here {
            Some(name) => Some(name),
            None => default_from(tree, statements, from + 1),
        }
    }
}

/// The call that node `id` returns, if it is `return name(key, ..)`.
pub open spec fn returned_call(tree: SyntaxTree, id: usize) -> Option<ReturnedView> {
    match tree.nodes[id as int].kind {
        NodeKind::Return { argument: Some(argument) } => match tree.nodes[argument as int].kind {
            NodeKind::Call { callee, arguments } => match (
                tree.nodes[callee as int].kind,
                argument_expression(tree, arguments@, 0),
            ) {
                (NodeKind::Identifier { name, .. }, Some(key)) => Some(
                    ReturnedView {
                        callee: name@,
                        pattern: template_pattern(
                            Scene { tree, store: Seq::empty(), node: 0 },
                            key,
                        ),
                    },
                ),
                _ => None,
            },
            _ => None,
        },
        _ => None,
    }
}

/// The calls that the nodes `from..` return.
pub open spec fn returned_calls_from(tree: SyntaxTree, from: int) -> Seq<ReturnedView>
    decreases tree.nodes.len() - from,
{
    if from < 0 || from >= tree.nodes.len() {
        Seq::empty()
    } else {
        let rest = returned_calls_from(tree, from + 1);
        match returned_call(tree, from as usize) {
            Some(call) => seq![call] + rest,
            None => rest,
        }
    }
}

/// The statements at the top level of the module.
pub open spec fn top_level(tree: SyntaxTree) -> Seq<usize> {
    if tree.nodes.len() > 0 {
        match tree.nodes[0].kind {
            NodeKind::Program { body } => body@,
            _ => Seq::empty(),
        }
    } else {
        Seq::empty()
    }
}

/// What the module with the tree `tree`, the file at `file`, binds at its top level.
pub open spec fn module_of(tree: SyntaxTree, file: Seq<char>) -> ModuleView {
    let statements = top_level(tree);
    ModuleView {
        locals: statement_constants_from(tree, file, statements, false, 0)
            + statement_constants_from(tree, file, statements, true, 0),
        imports: imports_from(tree, statements, 0),
        export_values: statement_constants_from(tree, file, statements, true, 0),
        export_names: exports_from(tree, statements, 0),
        default_export: default_from(tree, statements, 0),
        returned_calls: returned_calls_from(tree, 0),
    }
}

/// The views of a list of constants.
pub open spec fn locals_view(list: Seq<LocalValue>) -> Seq<LocalView> {
    list.map_values(|l: LocalValue| l@)
}

/// The parts that the value of expression `id` is made of.
pub fn read_value_parts(tree: &SyntaxTree, file: &str, id: usize) -> (parts: Option<Vec<KeyPath>>)
    requires
        tree.wf(),
        id < tree.nodes.len(),
    ensures
        match parts {
            Some(list) => value_parts(*tree, file@, id) == Some(parts_view(list@)),
            None => value_parts(*tree, file@, id) is None,
        },
    decreases tree.nodes.len() - id, 1nat,
{
    match &tree.nodes[id].kind {
        NodeKind::StringLiteral { value } => {
            let mut parts: Vec<KeyPath> = Vec::new();
            parts.push(KeyPath::from_string(value.clone()));
            assert(parts_view(parts@) =~= seq![PartView::Text(value@)]);
            Some(parts)
        },
        NodeKind::TemplateLiteral { .. } => read_template_parts(tree, file, id),
        NodeKind::Identifier { name, .. } => {
            let mut parts: Vec<KeyPath> = Vec::new();
            parts.push(KeyPath::from_node(file.to_owned(), name.clone()));
            assert(parts_view(parts@) =~= seq![PartView::Link { node: file@, member: name@ }]);
            Some(parts)
        },
        NodeKind::Binary { addition, left, right } => {
            if *addition {
                match read_value_parts(tree, file, *left) {
                    Some(mut head) => match read_value_parts(tree, file, *right) {
                        Some(mut tail) => {
                            let ghost first = parts_view(head@);
                            let ghost second = parts_view(tail@);
                            head.append(&mut tail);
                            assert(parts_view(head@) =~= first + second);
                            Some(head)
                        },
                        None => None,
                    },
                    None => None,
                }
            } else {
                None
            }
        },
        _ => None,
    }
}

fn read_template_parts(tree: &SyntaxTree, file: &str, id: usize) -> (parts: Option<Vec<KeyPath>>)
    requires
        tree.wf(),
        id < tree.nodes.len(),
        tree.nodes[id as int].kind is TemplateLiteral,
    ensures
        match parts {
            Some(list) => template_parts(*tree, file@, id, 0) == Some(parts_view(list@)),
            None => template_parts(*tree, file@, id, 0) is None,
        },
    decreases tree.nodes.len() - id, 0nat,
{
    let ghost whole = template_parts(*tree, file@, id, 0);
    match &tree.nodes[id].kind {
        NodeKind::TemplateLiteral { quasis, expressions } => {
            let mut parts: Vec<KeyPath> = Vec::new();
            assert(parts_view(parts@) =~= Seq::<PartView>::empty());
            let mut i: usize = 0;
            while i < quasis.len()
                invariant
                    tree.wf(),
                    id < tree.nodes.len(),
                    tree.nodes[id as int].kind == (NodeKind::TemplateLiteral {
                        quasis: *quasis,
                        expressions: *expressions,
                    }),
                    i <= quasis.len(),
                    whole == template_parts(*tree, file@, id, 0),
                    match template_parts(*tree, file@, id, i as int) {
                        Some(rest) => whole == Some(parts_view(parts@) + rest),
                        None => whole is None,
                    },
                decreases quasis.len() - i,
            {
                let ghost before = parts_view(parts@);
                parts.push(KeyPath::from_string(quasis[i].clone()));
                assert(parts_view(parts@) =~= before.push(PartView::Text(quasis[i as int]@)));
                let ghost mut hole = Seq::<PartView>::empty();
                if i < expressions.len() {
                    match read_value_parts(tree, file, expressions[i]) {
                        Some(mut value) => {
                            let ghost first = parts_view(parts@);
                            proof {
                                hole = parts_view(value@);
                            }
                            parts.append(&mut value);
                            assert(parts_view(parts@) =~= first + hole);
                        },
                        None => {
                            return None;
                        },
                    }
                }
                proof {
                    assert(parts_view(parts@) =~= before + seq![PartView::Text(quasis[i as int]@)]
                        + hole);
                    match template_parts(*tree, file@, id, i + 1) {
                        Some(rest) => {
                            assert(before + (seq![PartView::Text(quasis[i as int]@)] + hole + rest)
                                =~= parts_view(parts@) + rest);
                        },
                        None => {},
                    }
                }
                i += 1;
            }
            assert(parts_view(parts@) + Seq::<PartView>::empty() =~= parts_view(parts@));
            Some(parts)
        },
        _ => None,
    }
}

fn read_constants(tree: &SyntaxTree, file: &str, declarations: &Vec<usize>, owner: usize, into: &mut Vec<
    LocalValue,
>)
    requires
        tree.wf(),
        all_after(owner as int, declarations@, tree.nodes.len() as int),
    ensures
        locals_view(final(into)@) == locals_view(old(into)@) + constants_from(
            *tree,
            file@,
            declarations@,
            0,
        ),
{
    let ghost start = locals_view(into@);
    let mut i: usize = 0;
    assert(start + constants_from(*tree, file@, declarations@, 0) =~= locals_view(into@)
        + constants_from(*tree, file@, declarations@, 0));
    while i < declarations.len()
        invariant
            tree.wf(),
            all_after(owner as int, declarations@, tree.nodes.len() as int),
            i <= declarations.len(),
            locals_view(into@) + constants_from(*tree, file@, declarations@, i as int) == start
                + constants_from(*tree, file@, declarations@, 0),
        decreases declarations.len() - i,
    {
        let ghost before = locals_view(into@);
        match &tree.nodes[declarations[i]].kind {
            NodeKind::VariableDeclarator { id: target, init: Some(init) } => {
                match &tree.nodes[*target].kind {
                    NodeKind::BindingIdentifier { name, .. } => {
                        match read_value_parts(tree, file, *init) {
                            Some(value) => {
                                let constant = LocalValue { name: name.clone(), value };
                                into.push(constant);
                                assert(locals_view(into@) =~= before.push(constant@));
                                assert(before.push(constant@) + constants_from(
                                    *tree,
                                    file@,
                                    declarations@,
                                    i + 1,
                                ) =~= before + constants_from(
                                    *tree,
                                    file@,
                                    declarations@,
                                    i as int,
                                ));
                            },
                            None => {},
                        }
                    },
                    _ => {},
                }
            },
            _ => {},
        }
        i += 1;
    }
    assert(locals_view(into@) + Seq::<LocalView>::empty() =~= locals_view(into@));
}

fn read_statement_constants(tree: &SyntaxTree, file: &str, statements: &Vec<usize>, exported: bool, into: &mut Vec<
    LocalValue,
>)
    requires
        tree.wf(),
        all_after(0, statements@, tree.nodes.len() as int),
    ensures
        locals_view(final(into)@) == locals_view(old(into)@) + statement_constants_from(
            *tree,
            file@,
            statements@,
            exported,
            0,
        ),
{
    let ghost start = locals_view(into@);
    let ghost empty = Seq::<LocalView>::empty();
    let mut i: usize = 0;
    while i < statements.len()
        invariant
            tree.wf(),
            all_after(0, statements@, tree.nodes.len() as int),
            i <= statements.len(),
            locals_view(into@) + statement_constants_from(
                *tree,
                file@,
                statements@,
                exported,
                i as int,
            ) == start + statement_constants_from(*tree, file@, statements@, exported, 0),
        decreases statements.len() - i,
    {
        let ghost before = locals_view(into@);
        let ghost here = constants_from(
            *tree,
            file@,
            statement_declarations(*tree, statements[i as int], exported),
            0,
        );
        let ghost rest = statement_constants_from(*tree, file@, statements@, exported, i + 1);
        match &tree.nodes[statements[i]].kind {
            NodeKind::VariableDeclaration { declarations } => {
                if !exported {
                    read_constants(tree, file, declarations, statements[i], into);
                }
            },
            NodeKind::ExportNamed { declaration: Some(declared), .. } => {
                match &tree.nodes[*declared].kind {
                    NodeKind::VariableDeclaration { declarations } => {
                        read_constants(tree, file, declarations, *declared, into);
                    },
                    _ => {},
                }
            },
            _ => {},
        }
        assert(locals_view(into@) =~= before + here);
        assert((before + here) + rest =~= before + (here + rest));
        i += 1;
    }
    assert(locals_view(into@) + empty =~= locals_view(into@));
}

/// The views of a list of imported names.
pub open spec fn imports_view(list: Seq<ImportedName>) -> Seq<ImportedView> {
    list.map_values(|i: ImportedName| i@)
}

fn read_imports(tree: &SyntaxTree, statements: &Vec<usize>) -> (imports: Vec<ImportedName>)
    requires
        tree.wf(),
        all_after(0, statements@, tree.nodes.len() as int),
    ensures
        imports_view(imports@) == imports_from(*tree, statements@, 0),
{
    let mut imports: Vec<ImportedName> = Vec::new();
    let mut i: usize = 0;
    assert(imports_view(imports@) =~= Seq::<ImportedView>::empty());
    assert(imports_view(imports@) + imports_from(*tree, statements@, 0) =~= imports_from(
        *tree,
        statements@,
        0,
    ));
    while i < statements.len()
        invariant
            tree.wf(),
            all_after(0, statements@, tree.nodes.len() as int),
            i <= statements.len(),
            imports_view(imports@) + imports_from(*tree, statements@, i as int) == imports_from(
                *tree,
                statements@,
                0,
            ),
        decreases statements.len() - i,
    {
        let ghost before = imports_view(imports@);
        let ghost here = statement_imports(*tree, statements[i as int]);
        let ghost rest = imports_from(*tree, statements@, i + 1);
        match &tree.nodes[statements[i]].kind {
            NodeKind::ImportDeclaration { source, specifiers: Some(specifiers) } => {
                let mut k: usize = 0;
                assert(imports_view(imports@) + imported_names_from(*tree, source@, specifiers@, 0)
                    =~= before + here);
                while k < specifiers.len()
                    invariant
                        tree.wf(),
                        all_after(statements[i as int] as int, specifiers@, tree.nodes.len() as int),
                        k <= specifiers.len(),
                        imports_view(imports@) + imported_names_from(
                            *tree,
                            source@,
                            specifiers@,
                            k as int,
                        ) == before + here,
                    decreases specifiers.len() - k,
                {
                    let ghost inner = imports_view(imports@);
                    let bound: Option<(String, usize)> = match &tree.nodes[specifiers[k]].kind {
                        NodeKind::ImportSpecifier { imported, local } => Some(
                            (imported.clone(), *local),
                        ),
                        NodeKind::ImportDefaultSpecifier { local } => Some(
                            ("default".to_owned(), *local),
                        ),
                        NodeKind::ImportNamespaceSpecifier { local } => Some(
                            ("*".to_owned(), *local),
                        ),
                        _ => None,
                    };
                    match bound {
                        Some((imported, local)) => match &tree.nodes[local].kind {
                            NodeKind::BindingIdentifier { name, .. } => {
                                let entry = ImportedName {
                                    local: name.clone(),
                                    source: source.clone(),
                                    imported,
                                };
                                imports.push(entry);
                                assert(imports_view(imports@) =~= inner.push(entry@));
                                assert(inner.push(entry@) + imported_names_from(
                                    *tree,
                                    source@,
                                    specifiers@,
                                    k + 1,
                                ) =~= inner + imported_names_from(
                                    *tree,
                                    source@,
                                    specifiers@,
                                    k as int,
                                ));
                            },
                            _ => {},
                        },
                        None => {},
                    }
                    k += 1;
                }
                assert(imports_view(imports@) + Seq::<ImportedView>::empty() =~= imports_view(
                    imports@,
                ));
            },
            _ => {
                assert(before + here =~= before);
            },
        }
        assert(imports_view(imports@) == before + here);
        assert((before + here) + rest =~= before + (here + rest));
        i += 1;
    }
    assert(imports_view(imports@) + Seq::<ImportedView>::empty() =~= imports_view(imports@));
    imports
}

/// The views of a list of exported names.
pub open spec fn exported_view(list: Seq<ExportedName>) -> Seq<ExportedView> {
    list.map_values(|e: ExportedName| e@)
}

fn read_exports(tree: &SyntaxTree, statements: &Vec<usize>) -> (exports: Vec<ExportedName>)
    requires
        tree.wf(),
        all_after(0, statements@, tree.nodes.len() as int),
    ensures
        exported_view(exports@) == exports_from(*tree, statements@, 0),
{
    let mut exports: Vec<ExportedName> = Vec::new();
    let mut i: usize = 0;
    assert(exported_view(exports@) =~= Seq::<ExportedView>::empty());
    assert(exported_view(exports@) + exports_from(*tree, statements@, 0) =~= exports_from(
        *tree,
        statements@,
        0,
    ));
    while i < statements.len()
        invariant
            tree.wf(),
            all_after(0, statements@, tree.nodes.len() as int),
            i <= statements.len(),
            exported_view(exports@) + exports_from(*tree, statements@, i as int) == exports_from(
                *tree,
                statements@,
                0,
            ),
        decreases statements.len() - i,
    {
        let ghost before = exported_view(exports@);
        let ghost here = statement_exports(*tree, statements[i as int]);
        let ghost rest = exports_from(*tree, statements@, i + 1);
        match &tree.nodes[statements[i]].kind {
            NodeKind::ExportNamed { specifiers, source, .. } => {
                let mut k: usize = 0;
                assert(exported_view(exports@) + exported_list_from(
                    *tree,
                    opt_text(*source),
                    specifiers@,
                    0,
                ) =~= before + here);
                while k < specifiers.len()
                    invariant
                        tree.wf(),
                        all_after(statements[i as int] as int, specifiers@, tree.nodes.len() as int),
                        k <= specifiers.len(),
                        exported_view(exports@) + exported_list_from(
                            *tree,
                            opt_text(*source),
                            specifiers@,
                            k as int,
                        ) == before + here,
                    decreases specifiers.len() - k,
                {
                    let ghost inner = exported_view(exports@);
                    match &tree.nodes[specifiers[k]].kind {
                        NodeKind::ExportSpecifier { local_name, exported, .. } => {
                            let entry = ExportedName {
                                name: exported.clone(),
                                local: local_name.clone(),
                                source: clone_opt_text(source),
                            };
                            exports.push(entry);
                            assert(exported_view(exports@) =~= inner.push(entry@));
                            assert(inner.push(entry@) + exported_list_from(
                                *tree,
                                opt_text(*source),
                                specifiers@,
                                k + 1,
                            ) =~= inner + exported_list_from(
                                *tree,
                                opt_text(*source),
                                specifiers@,
                                k as int,
                            ));
                        },
                        _ => {},
                    }
                    k += 1;
                }
                assert(exported_view(exports@) + Seq::<ExportedView>::empty() =~= exported_view(
                    exports@,
                ));
            },
            _ => {
                assert(before + here =~= before);
            },
        }
        assert(exported_view(exports@) == before + here);
        assert((before + here) + rest =~= before + (here + rest));
        i += 1;
    }
    assert(exported_view(exports@) + Seq::<ExportedView>::empty() =~= exported_view(exports@));
    exports
}

fn read_default(tree: &SyntaxTree, statements: &Vec<usize>) -> (name: Option<String>)
    requires
        tree.wf(),
        all_after(0, statements@, tree.nodes.len() as int),
    ensures
        opt_text(name) == default_from(*tree, statements@, 0),
{
    let mut i: usize = 0;
    while i < statements.len()
        invariant
            tree.wf(),
            all_after(0, statements@, tree.nodes.len() as int),
            i <= statements.len(),
            default_from(*tree, statements@, i as int) == default_from(*tree, statements@, 0),
        decreases statements.len() - i,
    {
        match &tree.nodes[statements[i]].kind {
            NodeKind::ExportDefault { declaration } => match &tree.nodes[*declaration].kind {
                NodeKind::Identifier { name, .. } => {
                    return Some(name.clone());
                },
                _ => {},
            },
            _ => {},
        }
        i += 1;
    }
    None
}

/// The views of a list of returned calls.
pub open spec fn returned_view(list: Seq<ReturnedCall>) -> Seq<ReturnedView> {
    list.map_values(|r: ReturnedCall| r@)
}

fn read_returned_calls(tree: &SyntaxTree) -> (calls: Vec<ReturnedCall>)
    requires
        tree.wf(),
    ensures
        returned_view(calls@) == returned_calls_from(*tree, 0),
{
    let mut calls: Vec<ReturnedCall> = Vec::new();
    let mut i: usize = 0;
    assert(returned_view(calls@) =~= Seq::<ReturnedView>::empty());
    assert(returned_view(calls@) + returned_calls_from(*tree, 0) =~= returned_calls_from(*tree, 0));
    while i < tree.nodes.len()
        invariant
            tree.wf(),
            i <= tree.nodes.len(),
            returned_view(calls@) + returned_calls_from(*tree, i as int) == returned_calls_from(
                *tree,
                0,
            ),
        decreases tree.nodes.len() - i,
    {
        let ghost before = returned_view(calls@);
        match &tree.nodes[i].kind {
            NodeKind::Return { argument: Some(argument) } => match &tree.nodes[*argument].kind {
                NodeKind::Call { callee, arguments } => {
                    let key: Option<usize> = if arguments.len() > 0 && arguments[0]
                        < tree.nodes.len() {
                        match &tree.nodes[arguments[0]].kind {
                            NodeKind::Argument { value, spread } => if *spread {
                                None
                            } else {
                                Some(*value)
                            },
                            _ => None,
                        }
                    } else {
                        None
                    };
                    match (&tree.nodes[*callee].kind, key) {
                        (NodeKind::Identifier { name, .. }, Some(key)) => {
                            let pattern = match &tree.nodes[key].kind {
                                NodeKind::TemplateLiteral { quasis, expressions } => {
                                    if quasis.len() == 2 && expressions.len() == 1 {
                                        let head = text_concat(quasis[0].as_str(), "{}");
                                        Some(text_concat(head.as_str(), quasis[1].as_str()))
                                    } else {
                                        None
                                    }
                                },
                                _ => None,
                            };
                            let entry = ReturnedCall { callee: name.clone(), pattern };
                            calls.push(entry);
                            assert(returned_view(calls@) =~= before.push(entry@));
                            assert(before.push(entry@) + returned_calls_from(*tree, i + 1) =~= before
                                + returned_calls_from(*tree, i as int));
                        },
                        _ => {},
                    }
                },
                _ => {},
            },
            _ => {},
        }
        i += 1;
    }
    assert(returned_view(calls@) + Seq::<ReturnedView>::empty() =~= returned_view(calls@));
    calls
}

impl ModuleInfo {
    /// What the module with the tree `tree`, the file at `file`, binds at its top level.
    pub fn from_tree(tree: &SyntaxTree, file: &str) -> (info: ModuleInfo)
        requires
            tree.wf(),
        ensures
            info@ == module_of(*tree, file@),
    {
        let empty: Vec<usize> = Vec::new();
        let statements: &Vec<usize> = if tree.nodes.len() > 0 {
            match &tree.nodes[0].kind {
                NodeKind::Program { body } => body,
                _ => &empty,
            }
        } else {
            &empty
        };
        assert(statements@ =~= top_level(*tree));
        let mut locals: Vec<LocalValue> = Vec::new();
        assert(locals_view(locals@) =~= Seq::<LocalView>::empty());
        read_statement_constants(tree, file, statements, false, &mut locals);
        read_statement_constants(tree, file, statements, true, &mut locals);
        let mut export_values: Vec<LocalValue> = Vec::new();
        assert(locals_view(export_values@) =~= Seq::<LocalView>::empty());
        read_statement_constants(tree, file, statements, true, &mut export_values);
        let info = ModuleInfo {
            locals,
            imports: read_imports(tree, statements),
            export_values,
            export_names: read_exports(tree, statements),
            default_export: read_default(tree, statements),
            returned_calls: read_returned_calls(tree),
        };
        assert(info@.locals =~= module_of(*tree, file@).locals);
        assert(info@.export_values =~= module_of(*tree, file@).export_values);
        info
    }
}

} // verus!
